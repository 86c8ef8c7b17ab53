//! Instruction operands and their resolution against the register file and
//! memory: register names, ModR/M addressing forms, direct offsets and
//! immediates, together with the segmented effective-address computation.

use super::cpu::phys;
use super::cpu::segment_phys;
use super::cpu::CPU;
use super::register::byte_reg;
use super::register::word_reg;
use super::register::Register;
use super::register::RegisterByteType;
use super::register::RegisterType;
use super::register::RegisterWordType;
use crate::mem::byte_at;
use crate::mem::mem_wrote;
use crate::mem::word16_at;
use crate::mem::Memory;
use crate::mem::MemoryValue;
use vstd::prelude::*;

verus! {

/// The eight ModR/M base-register addressing forms.
#[derive(PartialEq, Eq, Structural, Copy, Clone, Debug)]
pub enum AddressType {
    BxSi,
    BxDi,
    BpSi,
    BpDi,
    Si,
    Di,
    Bp,
    Bx,
}

/// One instruction operand of width `T`: a register, a based memory
/// reference with displacement, a direct offset, or an immediate.
#[derive(PartialEq, Eq, Copy, Clone, Debug)]
pub enum Operand<T: RegisterType> {
    Register(T),
    Address(AddressType, i16),
    Direct(u16),
    ImmWord(u16),
    ImmByte(u8),
}

/// A byte-width operand.
pub type OperandByte = Operand<RegisterByteType>;

/// A word-width operand.
pub type OperandWord = Operand<RegisterWordType>;

/// The sum of the base registers an addressing form names.
pub open spec fn addr_base(r: Register, at: AddressType) -> int {
    match at {
        AddressType::BxSi => r.bx + r.si,
        AddressType::BxDi => r.bx + r.di,
        AddressType::BpSi => r.bp + r.si,
        AddressType::BpDi => r.bp + r.di,
        AddressType::Si => r.si as int,
        AddressType::Di => r.di as int,
        AddressType::Bp => r.bp as int,
        AddressType::Bx => r.bx as int,
    }
}

/// The effective offset of a based operand: base registers plus signed
/// displacement, wrapping at 16 bits.
pub open spec fn operand_offset(r: Register, at: AddressType, disp: i16) -> u16 {
    ((addr_base(r, at) + disp) % 0x10000) as u16
}

/// Whether an addressing form defaults to the stack segment: the forms that
/// reference `BP`.
pub open spec fn seg_default_ss(at: AddressType) -> bool {
    at is BpSi || at is BpDi || at is Bp
}

/// The segment a memory operand uses: the latched override if one is
/// pending, else the stack segment for `BP`-based forms, else the data
/// segment.
pub open spec fn operand_seg(
    reg: Register,
    latch: Option<RegisterWordType>,
    at: Option<AddressType>,
) -> u16 {
    match latch {
        Some(seg) => word_reg(reg, seg),
        None => match at {
            Some(a) => if seg_default_ss(a) {
                reg.ss
            } else {
                reg.ds
            },
            None => reg.ds,
        },
    }
}

/// The physical address a based operand resolves to.
pub open spec fn based_addr(
    reg: Register,
    latch: Option<RegisterWordType>,
    at: AddressType,
    disp: i16,
) -> int {
    phys(operand_seg(reg, latch, Some(at)), operand_offset(reg, at, disp))
}

/// The physical address a direct operand resolves to.
pub open spec fn direct_addr(reg: Register, latch: Option<RegisterWordType>, off: u16) -> int {
    phys(operand_seg(reg, latch, None), off)
}

/// The byte value an operand holds: a register half, a memory byte, or an
/// immediate (a word immediate is truncated).
pub open spec fn operand_byte_val<M: Memory>(
    mem: M,
    reg: Register,
    latch: Option<RegisterWordType>,
    operand: OperandByte,
) -> u8 {
    match operand {
        Operand::Register(r) => byte_reg(reg, r),
        Operand::Address(at, disp) => byte_at(mem, based_addr(reg, latch, at, disp)),
        Operand::Direct(off) => byte_at(mem, direct_addr(reg, latch, off)),
        Operand::ImmWord(v) => v as u8,
        Operand::ImmByte(v) => v,
    }
}

/// The word value an operand holds: a register, a memory word, or an
/// immediate (a byte immediate is sign-extended).
pub open spec fn operand_word_val<M: Memory>(
    mem: M,
    reg: Register,
    latch: Option<RegisterWordType>,
    operand: OperandWord,
) -> u16 {
    match operand {
        Operand::Register(r) => word_reg(reg, r),
        Operand::Address(at, disp) => word16_at(mem, based_addr(reg, latch, at, disp)),
        Operand::Direct(off) => word16_at(mem, direct_addr(reg, latch, off)),
        Operand::ImmWord(v) => v,
        Operand::ImmByte(v) => v as i8 as i16 as u16,
    }
}

/// How a write through an operand changes the processor: a register operand
/// rewrites the register file, a memory operand writes the value's bytes at
/// its physical address, and an immediate destination is silently ignored.
/// Everything else, the prefix latches included, stays as it was.
pub open spec fn wrote_operand<M: Memory, P: Memory, R: RegisterType<Value = T>, T: MemoryValue<M>>(
    pre: CPU<M, P>,
    post: CPU<M, P>,
    operand: Operand<R>,
    value: T,
) -> bool {
    match operand {
        Operand::Register(reg) => post == (CPU {
            register: R::write_spec(pre.register, reg, value),
            ..pre
        }),
        Operand::Address(at, disp) => post == (CPU { memory: post.memory, ..pre }) && mem_wrote(
            pre.memory,
            post.memory,
            based_addr(pre.register, pre.segment_selector, at, disp),
            T::bytes_of(value),
        ),
        Operand::Direct(off) => post == (CPU { memory: post.memory, ..pre }) && mem_wrote(
            pre.memory,
            post.memory,
            direct_addr(pre.register, pre.segment_selector, off),
            T::bytes_of(value),
        ),
        Operand::ImmWord(_) => post == pre,
        Operand::ImmByte(_) => post == pre,
    }
}

/// A value that can move through an operand of matching width.
pub trait OperandValue<M: Memory, R: RegisterType<Value = Self>>: MemoryValue<M> + Copy {
    /// The value an operand holds, against a register file, a latched
    /// segment override and a memory.
    spec fn operand_spec(
        mem: M,
        reg: Register,
        latch: Option<RegisterWordType>,
        operand: Operand<R>,
    ) -> Self;

    /// A byte immediate carried into this width.
    spec fn from_u8_spec(v: u8) -> Self;

    /// A word immediate carried into this width.
    spec fn from_u16_spec(v: u16) -> Self;

    /// Convert a byte immediate.
    fn from_u8(v: u8) -> (r: Self)
        ensures
            r == Self::from_u8_spec(v),
    ;

    /// Convert a word immediate.
    fn from_u16(v: u16) -> (r: Self)
        ensures
            r == Self::from_u16_spec(v),
    ;

    /// What the operand value is, arm by arm: a register read, a memory
    /// read at the operand's physical address, or an immediate conversion.
    proof fn operand_spec_arms(
        mem: M,
        reg: Register,
        latch: Option<RegisterWordType>,
        operand: Operand<R>,
    )
        ensures
            Self::operand_spec(mem, reg, latch, operand) == match operand {
                Operand::Register(r) => R::read_spec(reg, r),
                Operand::Address(at, disp) => Self::read_spec(
                    mem,
                    based_addr(reg, latch, at, disp),
                ),
                Operand::Direct(off) => Self::read_spec(mem, direct_addr(reg, latch, off)),
                Operand::ImmWord(v) => Self::from_u16_spec(v),
                Operand::ImmByte(v) => Self::from_u8_spec(v),
            },
    ;
}

impl<M: Memory> OperandValue<M, RegisterByteType> for u8 {
    open spec fn operand_spec(
        mem: M,
        reg: Register,
        latch: Option<RegisterWordType>,
        operand: OperandByte,
    ) -> u8 {
        operand_byte_val(mem, reg, latch, operand)
    }

    open spec fn from_u8_spec(v: u8) -> u8 {
        v
    }

    open spec fn from_u16_spec(v: u16) -> u8 {
        v as u8
    }

    fn from_u8(v: u8) -> u8 {
        v
    }

    fn from_u16(v: u16) -> u8 {
        proof {
            crate::mem::lemma_low_bits_u16();
        }
        let r = (v & 0xff) as u8;
        r
    }

    proof fn operand_spec_arms(
        mem: M,
        reg: Register,
        latch: Option<RegisterWordType>,
        operand: OperandByte,
    ) {
    }
}

impl<M: Memory> OperandValue<M, RegisterWordType> for u16 {
    open spec fn operand_spec(
        mem: M,
        reg: Register,
        latch: Option<RegisterWordType>,
        operand: OperandWord,
    ) -> u16 {
        operand_word_val(mem, reg, latch, operand)
    }

    open spec fn from_u8_spec(v: u8) -> u16 {
        v as i8 as i16 as u16
    }

    open spec fn from_u16_spec(v: u16) -> u16 {
        v
    }

    fn from_u8(v: u8) -> u16 {
        v as i8 as i16 as u16
    }

    fn from_u16(v: u16) -> u16 {
        v
    }

    proof fn operand_spec_arms(
        mem: M,
        reg: Register,
        latch: Option<RegisterWordType>,
        operand: OperandWord,
    ) {
    }
}

impl<M: Memory, P: Memory> CPU<M, P> {
    /// The effective offset of a based operand: its base registers plus the
    /// signed displacement, wrapping at 16 bits.
    pub fn get_offset(&self, addr_type: &AddressType, offset: i16) -> (r: u16)
        ensures
            r == operand_offset(self.register, *addr_type, offset),
    {
        let base: u32 = match addr_type {
            AddressType::BxSi => self.register.bx as u32 + self.register.si as u32,
            AddressType::BxDi => self.register.bx as u32 + self.register.di as u32,
            AddressType::BpSi => self.register.bp as u32 + self.register.si as u32,
            AddressType::BpDi => self.register.bp as u32 + self.register.di as u32,
            AddressType::Si => self.register.si as u32,
            AddressType::Di => self.register.di as u32,
            AddressType::Bp => self.register.bp as u32,
            AddressType::Bx => self.register.bx as u32,
        };
        let disp: u16 = offset as u16;
        let total: u32 = base + disp as u32;
        let r = (total & 0xffff) as u16;
        proof {
            crate::mem::lemma_low_bits_u32();
            crate::mem::lemma_wrap_ops_u16();
            let b = addr_base(self.register, *addr_type);
            if offset >= 0 {
                assert(total == b + offset);
            } else {
                assert(disp == offset + 0x10000) by (nonlinear_arith)
                    requires
                        offset < 0 && -0x10000 < offset && disp == (offset as int) % 0x10000,
                ;
                assert(total == b + offset + 0x10000);
                assert((b + offset + 0x10000) % 0x10000 == (b + offset) % 0x10000)
                    by (nonlinear_arith);
            }
        }
        r
    }

    /// The segment a memory operand uses: the latched override if one is
    /// pending, else the default for the addressing form.
    pub fn get_segment_addr(&self, addr_type: Option<&AddressType>) -> (r: u16)
        ensures
            r == operand_seg(
                self.register,
                self.segment_selector,
                match addr_type {
                    Some(at) => Some(*at),
                    None => None,
                },
            ),
    {
        match &self.segment_selector {
            Some(seg) => RegisterWordType::read_reg(&self.register, seg),
            None => match addr_type {
                Some(at) => match at {
                    AddressType::BpSi => self.register.ss,
                    AddressType::BpDi => self.register.ss,
                    AddressType::Bp => self.register.ss,
                    _ => self.register.ds,
                },
                None => self.register.ds,
            },
        }
    }

    /// The value an operand holds, against the current register file,
    /// segment override and memory.
    pub fn get_operand<T, R>(&self, operand: &Operand<R>) -> (r: T) where
        R: RegisterType<Value = T>,
        T: OperandValue<M, R>,

        ensures
            r == T::operand_spec(self.memory, self.register, self.segment_selector, *operand),
    {
        proof {
            T::operand_spec_arms(self.memory, self.register, self.segment_selector, *operand);
        }
        match operand {
            Operand::Register(reg) => R::read_reg(&self.register, reg),
            Operand::Address(at, disp) => {
                let off = self.get_offset(at, *disp);
                let seg = self.get_segment_addr(Some(at));
                let addr = segment_phys(seg, off);
                T::read_mem(&self.memory, addr)
            },
            Operand::Direct(off) => {
                let seg = self.get_segment_addr(None);
                let addr = segment_phys(seg, *off);
                T::read_mem(&self.memory, addr)
            },
            Operand::ImmWord(v) => T::from_u16(*v),
            Operand::ImmByte(v) => T::from_u8(*v),
        }
    }

    /// Write a value through an operand: into a register, or into memory at
    /// the operand's physical address. An immediate destination is ignored.
    pub fn set_operand<T, R>(&mut self, operand: &Operand<R>, value: T) where
        R: RegisterType<Value = T>,
        T: OperandValue<M, R>,

        ensures
            wrote_operand(*old(self), *final(self), *operand, value),
    {
        match operand {
            Operand::Register(reg) => R::write_reg(&mut self.register, reg, value),
            Operand::Address(at, disp) => {
                let off = self.get_offset(at, *disp);
                let seg = self.get_segment_addr(Some(at));
                let addr = segment_phys(seg, off);
                T::write_mem(&mut self.memory, addr, value);
            },
            Operand::Direct(off) => {
                let seg = self.get_segment_addr(None);
                let addr = segment_phys(seg, *off);
                T::write_mem(&mut self.memory, addr, value);
            },
            _ => (),
        }
    }
}

} // verus!
