//! The executor: one routine per instruction family, each specified by an
//! effect predicate relating the processor before and after the
//! instruction. Arithmetic results and flag vectors come from the
//! arithmetic core; operand reads and writes go through the operand
//! resolver; the stack and the interrupt path live here.

use super::alu::add_flags16;
use super::alu::add_flags8;
use super::alu::add_result16;
use super::alu::add_result8;
use super::alu::alu_add16;
use super::alu::alu_add8;
use super::alu::alu_div16;
use super::alu::alu_div8;
use super::alu::alu_idiv16;
use super::alu::alu_idiv8;
use super::alu::alu_imul16;
use super::alu::alu_imul8;
use super::alu::alu_mul16;
use super::alu::alu_mul8;
use super::alu::alu_rcl16;
use super::alu::alu_rcl8;
use super::alu::alu_rcr16;
use super::alu::alu_rcr8;
use super::alu::alu_rol16;
use super::alu::alu_rol8;
use super::alu::alu_ror16;
use super::alu::alu_ror8;
use super::alu::alu_sar16;
use super::alu::alu_sar8;
use super::alu::alu_shl16;
use super::alu::alu_shl8;
use super::alu::alu_shr16;
use super::alu::alu_shr8;
use super::alu::alu_sub16;
use super::alu::alu_sub8;
use super::alu::imul_flags16;
use super::alu::imul_flags8;
use super::alu::mul_flags16;
use super::alu::mul_flags8;
use super::alu::rol_flags16;
use super::alu::rol_flags8;
use super::alu::rol_result16;
use super::alu::rol_result8;
use super::alu::ror_flags16;
use super::alu::ror_flags8;
use super::alu::ror_result16;
use super::alu::ror_result8;
use super::alu::rot17_left;
use super::alu::rot17_right;
use super::alu::rot9_left;
use super::alu::rot9_right;
use super::alu::sar_flags16;
use super::alu::sar_flags8;
use super::alu::sar_result16;
use super::alu::sar_result8;
use super::alu::shl_flags16;
use super::alu::shl_flags8;
use super::alu::shl_result16;
use super::alu::shl_result8;
use super::alu::shr_flags16;
use super::alu::shr_flags8;
use super::alu::shr_result16;
use super::alu::shr_result8;
use super::alu::signed16;
use super::alu::signed8;
use super::alu::sub_flags16;
use super::alu::sub_flags8;
use super::alu::sub_result16;
use super::alu::sub_result8;
use super::alu::szp16;
use super::alu::szp8;
use super::alu::szp_flags16;
use super::alu::szp_flags8;
use super::alu::to_signed16;
use super::alu::to_signed8;
use super::alu::trunc_div;
use super::alu::trunc_rem;
use super::alu::with_carry17;
use super::alu::with_carry9;
use super::alu::ARITH_FLAGS;
use super::alu::LOGIC_FLAGS;
use super::cpu::phys;
use super::cpu::segment_phys;
use super::cpu::CPU;
use super::flags::blit;
use super::flags::AF;
use super::flags::CF;
use super::flags::DF;
use super::flags::PF;
use super::flags::SF;
use super::flags::IF;
use super::flags::OF;
use super::flags::TF;
use super::flags::ZF;
use super::op::Op;
use super::op::OpBinaryOp;
use super::op::OpCallType;
use super::op::OpCondJmpOp;
use super::op::OpNullaryOp;
use super::op::OpShiftOp;
use super::op::OpSize;
use super::op::OpShiftType;
use super::op::OpUnaryOp;
use super::operand::based_addr;
use super::operand::operand_offset;
use super::operand::operand_seg;
use super::operand::direct_addr;
use super::operand::operand_byte_val;
use super::operand::operand_word_val;
use super::operand::wrote_operand;
use super::operand::Operand;
use super::operand::OperandByte;
use super::operand::OperandWord;
use super::register::byte_reg;
use super::register::with_byte_reg;
use super::register::with_word_reg;
use super::register::Register;
use super::register::RegisterByteType;
use super::register::RegisterType;
use super::register::RegisterWordType;
use crate::mem::byte_at;
use crate::mem::byte_writable;
use crate::mem::mem_wrote;
use crate::mem::read_u16;
use crate::mem::word16_at;
use crate::mem::word_bytes;
use crate::mem::write_u16;
use crate::mem::Memory;
use crate::mem::MemoryValue;
use vstd::prelude::*;

verus! {

/// The processor with both one-instruction prefix latches consumed.
pub open spec fn clear_latches<M: Memory, P: Memory>(c: CPU<M, P>) -> CPU<M, P> {
    CPU { segment_selector: None, rep_selector: None, ..c }
}

/// The register file with a new flag word.
pub open spec fn with_flags(r: Register, f: u16) -> Register {
    Register { flags: f, ..r }
}

/// A 16-bit quantity moved down by `k`, wrapping.
pub open spec fn wsub(v: u16, k: int) -> u16 {
    ((v - k) % 0x10000) as u16
}

/// A 16-bit quantity moved up by `k`, wrapping.
pub open spec fn wadd(v: u16, k: int) -> u16 {
    ((v + k) % 0x10000) as u16
}

/// A word pushed: `SP` drops by two and the word's bytes land at `SS:SP`.
/// Nothing else moves, the prefix latches included.
pub open spec fn pushed<M: Memory, P: Memory>(pre: CPU<M, P>, post: CPU<M, P>, v: u16) -> bool {
    let sp2 = wsub(pre.register.sp, 2);
    &&& post == (CPU {
        memory: post.memory,
        register: Register { sp: sp2, ..pre.register },
        ..pre
    })
    &&& mem_wrote(pre.memory, post.memory, phys(pre.register.ss, sp2), word_bytes(v))
}

/// The word at the top of the stack.
pub open spec fn stack_top<M: Memory, P: Memory>(c: CPU<M, P>) -> u16 {
    word16_at(c.memory, phys(c.register.ss, c.register.sp))
}

/// A word popped: `SP` rises by two; memory does not change.
pub open spec fn popped<M: Memory, P: Memory>(pre: CPU<M, P>, post: CPU<M, P>) -> bool {
    post == (CPU { register: Register { sp: wadd(pre.register.sp, 2), ..pre.register }, ..pre })
}

/// Push a word onto the stack.
pub fn push_val<M: Memory, P: Memory>(cpu: &mut CPU<M, P>, src_val: u16)
    ensures
        pushed(*old(cpu), *final(cpu), src_val),
{
    let sp2 = cpu.register.sp.wrapping_sub(2);
    cpu.register.sp = sp2;
    let addr = segment_phys(cpu.register.ss, sp2);
    write_u16(&mut cpu.memory, addr, src_val);
}

/// Pop the word at the top of the stack.
pub fn pop_val<M: Memory, P: Memory>(cpu: &mut CPU<M, P>) -> (r: u16)
    ensures
        popped(*old(cpu), *final(cpu)),
        r == stack_top(*old(cpu)),
{
    let addr = segment_phys(cpu.register.ss, cpu.register.sp);
    let r = read_u16(&cpu.memory, addr);
    cpu.register.sp = cpu.register.sp.wrapping_add(2);
    r
}

/// The flag word updated first, then the value written through the
/// destination operand, then the prefix latches consumed.
pub open spec fn flags_then_write_byte<M: Memory, P: Memory>(
    pre: CPU<M, P>,
    post: CPU<M, P>,
    dest: OperandByte,
    value: u8,
    clear: u16,
    set: u16,
) -> bool {
    let mid = CPU {
        register: with_flags(pre.register, blit(pre.register.flags, clear, set)),
        ..pre
    };
    exists|m2: CPU<M, P>| #[trigger] wrote_operand(mid, m2, dest, value) && post == clear_latches(m2)
}

/// The word-width counterpart of `flags_then_write_byte`.
pub open spec fn flags_then_write_word<M: Memory, P: Memory>(
    pre: CPU<M, P>,
    post: CPU<M, P>,
    dest: OperandWord,
    value: u16,
    clear: u16,
    set: u16,
) -> bool {
    let mid = CPU {
        register: with_flags(pre.register, blit(pre.register.flags, clear, set)),
        ..pre
    };
    exists|m2: CPU<M, P>| #[trigger] wrote_operand(mid, m2, dest, value) && post == clear_latches(m2)
}

/// Only the flag word changes, and the prefix latches are consumed.
pub open spec fn flags_only<M: Memory, P: Memory>(
    pre: CPU<M, P>,
    post: CPU<M, P>,
    clear: u16,
    set: u16,
) -> bool {
    post == clear_latches(
        CPU { register: with_flags(pre.register, blit(pre.register.flags, clear, set)), ..pre },
    )
}

/// The value written through the destination, then the flag word updated,
/// then the prefix latches consumed.
pub open spec fn write_then_flags_byte<M: Memory, P: Memory>(
    pre: CPU<M, P>,
    post: CPU<M, P>,
    dest: OperandByte,
    value: u8,
    clear: u16,
    set: u16,
) -> bool {
    exists|m: CPU<M, P>|
        #[trigger] wrote_operand(pre, m, dest, value) && post == clear_latches(
            CPU { register: with_flags(m.register, blit(m.register.flags, clear, set)), ..m },
        )
}

/// The word-width counterpart of `write_then_flags_byte`.
pub open spec fn write_then_flags_word<M: Memory, P: Memory>(
    pre: CPU<M, P>,
    post: CPU<M, P>,
    dest: OperandWord,
    value: u16,
    clear: u16,
    set: u16,
) -> bool {
    exists|m: CPU<M, P>|
        #[trigger] wrote_operand(pre, m, dest, value) && post == clear_latches(
            CPU { register: with_flags(m.register, blit(m.register.flags, clear, set)), ..m },
        )
}

/// What a two-operand byte instruction does: the arithmetic table of the
/// operation applied to the operand values, flags per the arithmetic core,
/// and the result written back where the operation stores one.
pub open spec fn binary_byte_effect<M: Memory, P: Memory>(
    pre: CPU<M, P>,
    post: CPU<M, P>,
    op: OpBinaryOp,
    src: OperandByte,
    dest: OperandByte,
) -> bool {
    let sv = operand_byte_val(pre.memory, pre.register, pre.segment_selector, src);
    let dv = operand_byte_val(pre.memory, pre.register, pre.segment_selector, dest);
    let carry = pre.register.flags & CF != 0;
    match op {
        OpBinaryOp::Add => flags_then_write_byte(
            pre,
            post,
            dest,
            add_result8(sv, dv, false),
            ARITH_FLAGS,
            add_flags8(sv, dv, false),
        ),
        OpBinaryOp::Adc => flags_then_write_byte(
            pre,
            post,
            dest,
            add_result8(sv, dv, carry),
            ARITH_FLAGS,
            add_flags8(sv, dv, carry),
        ),
        OpBinaryOp::Sub => flags_then_write_byte(
            pre,
            post,
            dest,
            sub_result8(sv, dv, false),
            ARITH_FLAGS,
            sub_flags8(sv, dv, false),
        ),
        OpBinaryOp::Sbb => flags_then_write_byte(
            pre,
            post,
            dest,
            sub_result8(sv, dv, carry),
            ARITH_FLAGS,
            sub_flags8(sv, dv, carry),
        ),
        OpBinaryOp::And => flags_then_write_byte(
            pre,
            post,
            dest,
            sv & dv,
            LOGIC_FLAGS,
            szp_flags8(sv & dv),
        ),
        OpBinaryOp::Or => flags_then_write_byte(
            pre,
            post,
            dest,
            sv | dv,
            LOGIC_FLAGS,
            szp_flags8(sv | dv),
        ),
        OpBinaryOp::Xor => flags_then_write_byte(
            pre,
            post,
            dest,
            sv ^ dv,
            LOGIC_FLAGS,
            szp_flags8(sv ^ dv),
        ),
        OpBinaryOp::Cmp => flags_only(pre, post, ARITH_FLAGS, sub_flags8(sv, dv, false)),
        OpBinaryOp::Test => flags_only(pre, post, LOGIC_FLAGS, szp_flags8(sv & dv)),
        OpBinaryOp::Mov => exists|m: CPU<M, P>|
            #[trigger] wrote_operand(pre, m, dest, sv) && post == clear_latches(m),
        OpBinaryOp::Xchg => exists|m1: CPU<M, P>, m2: CPU<M, P>|
            #[trigger] wrote_operand(pre, m1, dest, sv) && #[trigger] wrote_operand(m1, m2, src, dv)
                && post == clear_latches(m2),
    }
}

/// The word-width counterpart of `binary_byte_effect`.
pub open spec fn binary_word_effect<M: Memory, P: Memory>(
    pre: CPU<M, P>,
    post: CPU<M, P>,
    op: OpBinaryOp,
    src: OperandWord,
    dest: OperandWord,
) -> bool {
    let sv = operand_word_val(pre.memory, pre.register, pre.segment_selector, src);
    let dv = operand_word_val(pre.memory, pre.register, pre.segment_selector, dest);
    let carry = pre.register.flags & CF != 0;
    match op {
        OpBinaryOp::Add => flags_then_write_word(
            pre,
            post,
            dest,
            add_result16(sv, dv, false),
            ARITH_FLAGS,
            add_flags16(sv, dv, false),
        ),
        OpBinaryOp::Adc => flags_then_write_word(
            pre,
            post,
            dest,
            add_result16(sv, dv, carry),
            ARITH_FLAGS,
            add_flags16(sv, dv, carry),
        ),
        OpBinaryOp::Sub => flags_then_write_word(
            pre,
            post,
            dest,
            sub_result16(sv, dv, false),
            ARITH_FLAGS,
            sub_flags16(sv, dv, false),
        ),
        OpBinaryOp::Sbb => flags_then_write_word(
            pre,
            post,
            dest,
            sub_result16(sv, dv, carry),
            ARITH_FLAGS,
            sub_flags16(sv, dv, carry),
        ),
        OpBinaryOp::And => flags_then_write_word(
            pre,
            post,
            dest,
            sv & dv,
            LOGIC_FLAGS,
            szp_flags16(sv & dv),
        ),
        OpBinaryOp::Or => flags_then_write_word(
            pre,
            post,
            dest,
            sv | dv,
            LOGIC_FLAGS,
            szp_flags16(sv | dv),
        ),
        OpBinaryOp::Xor => flags_then_write_word(
            pre,
            post,
            dest,
            sv ^ dv,
            LOGIC_FLAGS,
            szp_flags16(sv ^ dv),
        ),
        OpBinaryOp::Cmp => flags_only(pre, post, ARITH_FLAGS, sub_flags16(sv, dv, false)),
        OpBinaryOp::Test => flags_only(pre, post, LOGIC_FLAGS, szp_flags16(sv & dv)),
        OpBinaryOp::Mov => exists|m: CPU<M, P>|
            #[trigger] wrote_operand(pre, m, dest, sv) && post == clear_latches(m),
        OpBinaryOp::Xchg => exists|m1: CPU<M, P>, m2: CPU<M, P>|
            #[trigger] wrote_operand(pre, m1, dest, sv) && #[trigger] wrote_operand(m1, m2, src, dv)
                && post == clear_latches(m2),
    }
}

/// Execute a two-operand byte instruction.
pub fn exec_binary_byte<M: Memory, P: Memory>(
    cpu: &mut CPU<M, P>,
    op: &OpBinaryOp,
    src: &OperandByte,
    dest: &OperandByte,
)
    ensures
        binary_byte_effect(*old(cpu), *final(cpu), *op, *src, *dest),
{
    let src_val: u8 = cpu.get_operand(src);
    let dest_val: u8 = cpu.get_operand(dest);
    match op {
        OpBinaryOp::Add => {
            let (result, clear, set) = alu_add8(src_val, dest_val, false);
            cpu.blit_flags(clear, set);
            cpu.set_operand(dest, result);
        },
        OpBinaryOp::Adc => {
            let has_carry = cpu.get_flags() & CF != 0;
            let (result, clear, set) = alu_add8(src_val, dest_val, has_carry);
            cpu.blit_flags(clear, set);
            cpu.set_operand(dest, result);
        },
        OpBinaryOp::Sub => {
            let (result, clear, set) = alu_sub8(src_val, dest_val, false);
            cpu.blit_flags(clear, set);
            cpu.set_operand(dest, result);
        },
        OpBinaryOp::Sbb => {
            let has_carry = cpu.get_flags() & CF != 0;
            let (result, clear, set) = alu_sub8(src_val, dest_val, has_carry);
            cpu.blit_flags(clear, set);
            cpu.set_operand(dest, result);
        },
        OpBinaryOp::And => {
            let result = src_val & dest_val;
            cpu.blit_flags(LOGIC_FLAGS, szp8(result));
            cpu.set_operand(dest, result);
        },
        OpBinaryOp::Or => {
            let result = src_val | dest_val;
            cpu.blit_flags(LOGIC_FLAGS, szp8(result));
            cpu.set_operand(dest, result);
        },
        OpBinaryOp::Xor => {
            let result = src_val ^ dest_val;
            cpu.blit_flags(LOGIC_FLAGS, szp8(result));
            cpu.set_operand(dest, result);
        },
        OpBinaryOp::Cmp => {
            let (_, clear, set) = alu_sub8(src_val, dest_val, false);
            cpu.blit_flags(clear, set);
        },
        OpBinaryOp::Test => {
            let result = src_val & dest_val;
            cpu.blit_flags(LOGIC_FLAGS, szp8(result));
        },
        OpBinaryOp::Mov => {
            cpu.set_operand(dest, src_val);
        },
        OpBinaryOp::Xchg => {
            cpu.set_operand(dest, src_val);
            cpu.set_operand(src, dest_val);
        },
    }
    cpu.segment_selector = None;
    cpu.rep_selector = None;
}

/// Execute a two-operand word instruction.
pub fn exec_binary_word<M: Memory, P: Memory>(
    cpu: &mut CPU<M, P>,
    op: &OpBinaryOp,
    src: &OperandWord,
    dest: &OperandWord,
)
    ensures
        binary_word_effect(*old(cpu), *final(cpu), *op, *src, *dest),
{
    let src_val: u16 = cpu.get_operand(src);
    let dest_val: u16 = cpu.get_operand(dest);
    match op {
        OpBinaryOp::Add => {
            let (result, clear, set) = alu_add16(src_val, dest_val, false);
            cpu.blit_flags(clear, set);
            cpu.set_operand(dest, result);
        },
        OpBinaryOp::Adc => {
            let has_carry = cpu.get_flags() & CF != 0;
            let (result, clear, set) = alu_add16(src_val, dest_val, has_carry);
            cpu.blit_flags(clear, set);
            cpu.set_operand(dest, result);
        },
        OpBinaryOp::Sub => {
            let (result, clear, set) = alu_sub16(src_val, dest_val, false);
            cpu.blit_flags(clear, set);
            cpu.set_operand(dest, result);
        },
        OpBinaryOp::Sbb => {
            let has_carry = cpu.get_flags() & CF != 0;
            let (result, clear, set) = alu_sub16(src_val, dest_val, has_carry);
            cpu.blit_flags(clear, set);
            cpu.set_operand(dest, result);
        },
        OpBinaryOp::And => {
            let result = src_val & dest_val;
            cpu.blit_flags(LOGIC_FLAGS, szp16(result));
            cpu.set_operand(dest, result);
        },
        OpBinaryOp::Or => {
            let result = src_val | dest_val;
            cpu.blit_flags(LOGIC_FLAGS, szp16(result));
            cpu.set_operand(dest, result);
        },
        OpBinaryOp::Xor => {
            let result = src_val ^ dest_val;
            cpu.blit_flags(LOGIC_FLAGS, szp16(result));
            cpu.set_operand(dest, result);
        },
        OpBinaryOp::Cmp => {
            let (_, clear, set) = alu_sub16(src_val, dest_val, false);
            cpu.blit_flags(clear, set);
        },
        OpBinaryOp::Test => {
            let result = src_val & dest_val;
            cpu.blit_flags(LOGIC_FLAGS, szp16(result));
        },
        OpBinaryOp::Mov => {
            cpu.set_operand(dest, src_val);
        },
        OpBinaryOp::Xchg => {
            cpu.set_operand(dest, src_val);
            cpu.set_operand(src, dest_val);
        },
    }
    cpu.segment_selector = None;
    cpu.rep_selector = None;
}

/// What a software interrupt does: the flag word, `CS` and `IP` pushed in
/// that order, the interrupt and trap flags cleared, and `CS:IP` loaded
/// from the vector table entry `n` (read before the pushes).
pub open spec fn int_effect<M: Memory, P: Memory>(pre: CPU<M, P>, post: CPU<M, P>, n: u8) -> bool {
    let vec_ip = word16_at(pre.memory, 4 * n);
    let vec_cs = word16_at(pre.memory, 4 * n + 2);
    exists|m1: CPU<M, P>, m2: CPU<M, P>, m3: CPU<M, P>|
        {
            &&& #[trigger] pushed(pre, m1, pre.register.flags)
            &&& #[trigger] pushed(m1, m2, pre.register.cs)
            &&& #[trigger] pushed(m2, m3, pre.register.ip)
            &&& post == clear_latches(
                CPU {
                    register: Register {
                        ip: vec_ip,
                        cs: vec_cs,
                        flags: pre.register.flags & !(IF | TF),
                        ..m3.register
                    },
                    ..m3
                },
            )
        }
}

/// Raise a software interrupt: used by the `INT` instruction and by the
/// divide fault.
pub fn exec_int<M: Memory, P: Memory>(cpu: &mut CPU<M, P>, n: u8)
    ensures
        int_effect(*old(cpu), *final(cpu), n),
{
    let vec_ip = read_u16(&cpu.memory, (n as usize) * 4);
    let vec_cs = read_u16(&cpu.memory, (n as usize) * 4 + 2);
    let flags = cpu.register.flags;
    push_val(cpu, flags);
    let cs = cpu.register.cs;
    push_val(cpu, cs);
    let ip = cpu.register.ip;
    push_val(cpu, ip);
    cpu.register.flags = flags & !(IF | TF);
    cpu.register.ip = vec_ip;
    cpu.register.cs = vec_cs;
    cpu.segment_selector = None;
    cpu.rep_selector = None;
}

/// What a one-operand byte instruction does.
pub open spec fn unary_byte_effect<M: Memory, P: Memory>(
    pre: CPU<M, P>,
    post: CPU<M, P>,
    op: OpUnaryOp,
    dest: OperandByte,
) -> bool {
    let dv = operand_byte_val(pre.memory, pre.register, pre.segment_selector, dest);
    let al = byte_reg(pre.register, RegisterByteType::Al);
    let ax = pre.register.ax;
    match op {
        OpUnaryOp::Push => exists|m: CPU<M, P>|
            #[trigger] pushed(pre, m, dv as i8 as i16 as u16) && post == clear_latches(m),
        OpUnaryOp::Pop => exists|m: CPU<M, P>, m2: CPU<M, P>|
            {
                &&& #[trigger] popped(pre, m)
                &&& #[trigger] wrote_operand(m, m2, dest, (stack_top(pre) & 0xff) as u8)
                &&& post == clear_latches(m2)
            },
        OpUnaryOp::Inc => flags_then_write_byte(
            pre,
            post,
            dest,
            add_result8(0, dv, true),
            ARITH_FLAGS & !CF,
            add_flags8(0, dv, true) & !CF,
        ),
        OpUnaryOp::Dec => flags_then_write_byte(
            pre,
            post,
            dest,
            sub_result8(0, dv, true),
            ARITH_FLAGS & !CF,
            sub_flags8(0, dv, true) & !CF,
        ),
        OpUnaryOp::Not => exists|m: CPU<M, P>|
            #[trigger] wrote_operand(pre, m, dest, !dv) && post == clear_latches(m),
        OpUnaryOp::Neg => flags_then_write_byte(
            pre,
            post,
            dest,
            sub_result8(dv, 0, false),
            ARITH_FLAGS,
            sub_flags8(dv, 0, false),
        ),
        OpUnaryOp::Mul => post == clear_latches(
            CPU {
                register: with_flags(
                    Register { ax: (al * dv) as u16, ..pre.register },
                    blit(pre.register.flags, LOGIC_FLAGS, mul_flags8((al * dv) as int)),
                ),
                ..pre
            },
        ),
        OpUnaryOp::Imul => post == clear_latches(
            CPU {
                register: with_flags(
                    Register { ax: to_signed16(signed8(al) * signed8(dv)), ..pre.register },
                    blit(
                        pre.register.flags,
                        LOGIC_FLAGS,
                        imul_flags8(signed8(al) * signed8(dv)),
                    ),
                ),
                ..pre
            },
        ),
        OpUnaryOp::Div => if dv != 0 && ax / (dv as u16) <= 0xFF {
            post == clear_latches(
                CPU {
                    register: Register {
                        ax: ((ax as int % dv as int) * 0x100 + ax as int / dv as int) as u16,
                        ..pre.register
                    },
                    ..pre
                },
            )
        } else {
            int_effect(pre, post, 0)
        },
        OpUnaryOp::Idiv => if dv != 0 && -0x80 <= trunc_div(signed16(ax), signed8(dv)) <= 0x7f {
            post == clear_latches(
                CPU {
                    register: Register {
                        ax: (to_signed8(trunc_rem(signed16(ax), signed8(dv))) * 0x100 + to_signed8(
                            trunc_div(signed16(ax), signed8(dv)),
                        )) as u16,
                        ..pre.register
                    },
                    ..pre
                },
            )
        } else {
            int_effect(pre, post, 0)
        },
    }
}

/// Execute a one-operand byte instruction.
pub fn exec_unary_byte<M: Memory, P: Memory>(cpu: &mut CPU<M, P>, op: &OpUnaryOp, dest: &OperandByte)
    ensures
        unary_byte_effect(*old(cpu), *final(cpu), *op, *dest),
{
    let dest_val: u8 = cpu.get_operand(dest);
    match op {
        OpUnaryOp::Push => {
            push_val(cpu, dest_val as i8 as i16 as u16);
        },
        OpUnaryOp::Pop => {
            let new_val = pop_val(cpu);
            proof {
                crate::mem::lemma_low_bits_u16();
            }
            cpu.set_operand(dest, (new_val & 0xff) as u8);
        },
        OpUnaryOp::Inc => {
            let (result, clear, set) = alu_add8(0, dest_val, true);
            cpu.blit_flags(clear & !CF, set & !CF);
            cpu.set_operand(dest, result);
        },
        OpUnaryOp::Dec => {
            let (result, clear, set) = alu_sub8(0, dest_val, true);
            cpu.blit_flags(clear & !CF, set & !CF);
            cpu.set_operand(dest, result);
        },
        OpUnaryOp::Not => {
            cpu.set_operand(dest, !dest_val);
        },
        OpUnaryOp::Neg => {
            let (result, clear, set) = alu_sub8(dest_val, 0, false);
            cpu.blit_flags(clear, set);
            cpu.set_operand(dest, result);
        },
        OpUnaryOp::Mul => {
            let al = RegisterByteType::read_reg(&cpu.register, &RegisterByteType::Al);
            let (product, clear, set) = alu_mul8(al, dest_val);
            cpu.register.ax = product;
            cpu.blit_flags(clear, set);
        },
        OpUnaryOp::Imul => {
            let al = RegisterByteType::read_reg(&cpu.register, &RegisterByteType::Al);
            let (product, clear, set) = alu_imul8(al, dest_val);
            cpu.register.ax = product;
            cpu.blit_flags(clear, set);
        },
        OpUnaryOp::Div => {
            let ax = cpu.register.ax;
            match alu_div8(ax, dest_val) {
                Some((quotient, remainder)) => {
                    cpu.register.ax = ((remainder as u16) << 8) | (quotient as u16);
                    proof {
                        crate::mem::lemma_byte_pack();
                    }
                },
                None => {
                    exec_int(cpu, 0);
                    return ;
                },
            }
        },
        OpUnaryOp::Idiv => {
            let ax = cpu.register.ax;
            match alu_idiv8(ax, dest_val) {
                Some((quotient, remainder)) => {
                    cpu.register.ax = ((remainder as u16) << 8) | (quotient as u16);
                    proof {
                        crate::mem::lemma_byte_pack();
                    }
                },
                None => {
                    exec_int(cpu, 0);
                    return ;
                },
            }
        },
    }
    cpu.segment_selector = None;
    cpu.rep_selector = None;
}

/// What a one-operand word instruction does.
pub open spec fn unary_word_effect<M: Memory, P: Memory>(
    pre: CPU<M, P>,
    post: CPU<M, P>,
    op: OpUnaryOp,
    dest: OperandWord,
) -> bool {
    let dv = operand_word_val(pre.memory, pre.register, pre.segment_selector, dest);
    let ax = pre.register.ax;
    let dividend = pre.register.ax + pre.register.dx * 0x10000;
    match op {
        OpUnaryOp::Push => exists|m: CPU<M, P>|
            #[trigger] pushed(pre, m, dv) && post == clear_latches(m),
        OpUnaryOp::Pop => exists|m: CPU<M, P>, m2: CPU<M, P>|
            {
                &&& #[trigger] popped(pre, m)
                &&& #[trigger] wrote_operand(m, m2, dest, stack_top(pre))
                &&& post == clear_latches(m2)
            },
        OpUnaryOp::Inc => flags_then_write_word(
            pre,
            post,
            dest,
            add_result16(0, dv, true),
            ARITH_FLAGS & !CF,
            add_flags16(0, dv, true) & !CF,
        ),
        OpUnaryOp::Dec => flags_then_write_word(
            pre,
            post,
            dest,
            sub_result16(0, dv, true),
            ARITH_FLAGS & !CF,
            sub_flags16(0, dv, true) & !CF,
        ),
        OpUnaryOp::Not => exists|m: CPU<M, P>|
            #[trigger] wrote_operand(pre, m, dest, !dv) && post == clear_latches(m),
        OpUnaryOp::Neg => flags_then_write_word(
            pre,
            post,
            dest,
            sub_result16(dv, 0, false),
            ARITH_FLAGS,
            sub_flags16(dv, 0, false),
        ),
        OpUnaryOp::Mul => post == clear_latches(
            CPU {
                register: with_flags(
                    Register {
                        ax: ((ax * dv) % 0x10000) as u16,
                        dx: ((ax * dv) / 0x10000) as u16,
                        ..pre.register
                    },
                    blit(pre.register.flags, LOGIC_FLAGS, mul_flags16((ax * dv) as int)),
                ),
                ..pre
            },
        ),
        OpUnaryOp::Imul => ({
            let p = signed16(ax) * signed16(dv);
            let full = if p >= 0 {
                p
            } else {
                p + 0x100000000
            };
            post == clear_latches(
                CPU {
                    register: with_flags(
                        Register {
                            ax: (full % 0x10000) as u16,
                            dx: (full / 0x10000) as u16,
                            ..pre.register
                        },
                        blit(pre.register.flags, LOGIC_FLAGS, imul_flags16(p)),
                    ),
                    ..pre
                },
            )
        }),
        OpUnaryOp::Div => if dv != 0 && dividend / (dv as int) <= 0xFFFF {
            post == clear_latches(
                CPU {
                    register: Register {
                        ax: (dividend / dv as int) as u16,
                        dx: (dividend % dv as int) as u16,
                        ..pre.register
                    },
                    ..pre
                },
            )
        } else {
            int_effect(pre, post, 0)
        },
        OpUnaryOp::Idiv => ({
            let sd = if dividend < 0x80000000 {
                dividend
            } else {
                dividend - 0x100000000
            };
            if dv != 0 && -0x8000 <= trunc_div(sd, signed16(dv)) <= 0x7fff {
                post == clear_latches(
                    CPU {
                        register: Register {
                            ax: to_signed16(trunc_div(sd, signed16(dv))),
                            dx: to_signed16(trunc_rem(sd, signed16(dv))),
                            ..pre.register
                        },
                        ..pre
                    },
                )
            } else {
                int_effect(pre, post, 0)
            }
        }),
    }
}

/// Execute a one-operand word instruction.
pub fn exec_unary_word<M: Memory, P: Memory>(cpu: &mut CPU<M, P>, op: &OpUnaryOp, dest: &OperandWord)
    ensures
        unary_word_effect(*old(cpu), *final(cpu), *op, *dest),
{
    let dest_val: u16 = cpu.get_operand(dest);
    match op {
        OpUnaryOp::Push => {
            push_val(cpu, dest_val);
        },
        OpUnaryOp::Pop => {
            let new_val = pop_val(cpu);
            cpu.set_operand(dest, new_val);
        },
        OpUnaryOp::Inc => {
            let (result, clear, set) = alu_add16(0, dest_val, true);
            cpu.blit_flags(clear & !CF, set & !CF);
            cpu.set_operand(dest, result);
        },
        OpUnaryOp::Dec => {
            let (result, clear, set) = alu_sub16(0, dest_val, true);
            cpu.blit_flags(clear & !CF, set & !CF);
            cpu.set_operand(dest, result);
        },
        OpUnaryOp::Not => {
            cpu.set_operand(dest, !dest_val);
        },
        OpUnaryOp::Neg => {
            let (result, clear, set) = alu_sub16(dest_val, 0, false);
            cpu.blit_flags(clear, set);
            cpu.set_operand(dest, result);
        },
        OpUnaryOp::Mul => {
            let ax = cpu.register.ax;
            let (product, clear, set) = alu_mul16(ax, dest_val);
            proof {
                crate::mem::lemma_low_bits_u32();
            }
            cpu.register.ax = (product & 0xffff) as u16;
            cpu.register.dx = (product >> 16) as u16;
            cpu.blit_flags(clear, set);
        },
        OpUnaryOp::Imul => {
            let ax = cpu.register.ax;
            let (product, clear, set) = alu_imul16(ax, dest_val);
            proof {
                crate::mem::lemma_low_bits_u32();
            }
            cpu.register.ax = (product & 0xffff) as u16;
            cpu.register.dx = (product >> 16) as u16;
            cpu.blit_flags(clear, set);
        },
        OpUnaryOp::Div => {
            let lo = cpu.register.ax;
            let hi = cpu.register.dx;
            let dividend: u32 = (lo as u32) | ((hi as u32) << 16);
            proof {
                crate::mem::lemma_word_pack();
            }
            match alu_div16(dividend, dest_val) {
                Some((quotient, remainder)) => {
                    cpu.register.ax = quotient;
                    cpu.register.dx = remainder;
                },
                None => {
                    exec_int(cpu, 0);
                    return ;
                },
            }
        },
        OpUnaryOp::Idiv => {
            let lo = cpu.register.ax;
            let hi = cpu.register.dx;
            let dividend: u32 = (lo as u32) | ((hi as u32) << 16);
            proof {
                crate::mem::lemma_word_pack();
            }
            match alu_idiv16(dividend, dest_val) {
                Some((quotient, remainder)) => {
                    cpu.register.ax = quotient;
                    cpu.register.dx = remainder;
                },
                None => {
                    exec_int(cpu, 0);
                    return ;
                },
            }
        },
    }
    cpu.segment_selector = None;
    cpu.rep_selector = None;
}

/// What a shift or rotate of byte width does: no flags move when the count
/// is zero; otherwise the result is written back and carry and overflow are
/// set per the operation.
pub open spec fn shift_byte_effect<M: Memory, P: Memory>(
    pre: CPU<M, P>,
    post: CPU<M, P>,
    op: OpShiftOp,
    shift_type: OpShiftType,
    dest: OperandByte,
) -> bool {
    let d = operand_byte_val(pre.memory, pre.register, pre.segment_selector, dest);
    let n = match shift_type {
        OpShiftType::One => 1u8,
        OpShiftType::Cl => byte_reg(pre.register, RegisterByteType::Cl),
    };
    let cf0 = pre.register.flags & CF != 0;
    if n == 0 {
        post == clear_latches(pre)
    } else {
        match op {
            OpShiftOp::Shl => write_then_flags_byte(
                pre,
                post,
                dest,
                shl_result8(d, n),
                CF | OF,
                shl_flags8(d, n),
            ),
            OpShiftOp::Sal => write_then_flags_byte(
                pre,
                post,
                dest,
                shl_result8(d, n),
                CF | OF,
                shl_flags8(d, n),
            ),
            OpShiftOp::Shr => write_then_flags_byte(
                pre,
                post,
                dest,
                shr_result8(d, n),
                CF | OF,
                shr_flags8(d, n),
            ),
            OpShiftOp::Sar => write_then_flags_byte(
                pre,
                post,
                dest,
                sar_result8(d, n),
                CF | OF,
                sar_flags8(d, n),
            ),
            OpShiftOp::Rol => write_then_flags_byte(
                pre,
                post,
                dest,
                rol_result8(d, n),
                CF | OF,
                rol_flags8(d, n),
            ),
            OpShiftOp::Ror => write_then_flags_byte(
                pre,
                post,
                dest,
                ror_result8(d, n),
                CF | OF,
                ror_flags8(d, n),
            ),
            OpShiftOp::Rcl => ({
                let v = rot9_left(with_carry9(d, cf0), (n % 9) as u16);
                write_then_flags_byte(
                    pre,
                    post,
                    dest,
                    (v & 0xff) as u8,
                    CF | OF,
                    (if v >= 0x100 {
                        CF
                    } else {
                        0
                    }) | (if n == 1 && ((v & 0xff >= 0x80) != (v >= 0x100)) {
                        OF
                    } else {
                        0
                    }),
                )
            }),
            OpShiftOp::Rcr => ({
                let v = rot9_right(with_carry9(d, cf0), (n % 9) as u16);
                write_then_flags_byte(
                    pre,
                    post,
                    dest,
                    (v & 0xff) as u8,
                    CF | OF,
                    (if v >= 0x100 {
                        CF
                    } else {
                        0
                    }) | (if n == 1 && ((d >= 0x80) != cf0) {
                        OF
                    } else {
                        0
                    }),
                )
            }),
        }
    }
}

/// Execute a shift or rotate of byte width.
pub fn exec_shift_byte<M: Memory, P: Memory>(
    cpu: &mut CPU<M, P>,
    op: &OpShiftOp,
    shift_type: &OpShiftType,
    dest: &OperandByte,
)
    ensures
        shift_byte_effect(*old(cpu), *final(cpu), *op, *shift_type, *dest),
{
    let dest_val: u8 = cpu.get_operand(dest);
    let count = match shift_type {
        OpShiftType::Cl => RegisterByteType::read_reg(&cpu.register, &RegisterByteType::Cl),
        OpShiftType::One => 1,
    };
    if count == 0 {
        cpu.segment_selector = None;
        cpu.rep_selector = None;
        return ;
    }
    let has_cf = cpu.get_flags() & CF != 0;
    let (result, clear, set) = match op {
        OpShiftOp::Rol => alu_rol8(dest_val, count),
        OpShiftOp::Ror => alu_ror8(dest_val, count),
        OpShiftOp::Rcl => alu_rcl8(dest_val, count, has_cf),
        OpShiftOp::Rcr => alu_rcr8(dest_val, count, has_cf),
        OpShiftOp::Shl => alu_shl8(dest_val, count),
        OpShiftOp::Sal => alu_shl8(dest_val, count),
        OpShiftOp::Shr => alu_shr8(dest_val, count),
        OpShiftOp::Sar => alu_sar8(dest_val, count),
    };
    cpu.set_operand(dest, result);
    cpu.blit_flags(clear, set);
    cpu.segment_selector = None;
    cpu.rep_selector = None;
}

/// What a shift or rotate of word width does.
pub open spec fn shift_word_effect<M: Memory, P: Memory>(
    pre: CPU<M, P>,
    post: CPU<M, P>,
    op: OpShiftOp,
    shift_type: OpShiftType,
    dest: OperandWord,
) -> bool {
    let d = operand_word_val(pre.memory, pre.register, pre.segment_selector, dest);
    let n = match shift_type {
        OpShiftType::One => 1u8,
        OpShiftType::Cl => byte_reg(pre.register, RegisterByteType::Cl),
    };
    let cf0 = pre.register.flags & CF != 0;
    if n == 0 {
        post == clear_latches(pre)
    } else {
        match op {
            OpShiftOp::Shl => write_then_flags_word(
                pre,
                post,
                dest,
                shl_result16(d, n),
                CF | OF,
                shl_flags16(d, n),
            ),
            OpShiftOp::Sal => write_then_flags_word(
                pre,
                post,
                dest,
                shl_result16(d, n),
                CF | OF,
                shl_flags16(d, n),
            ),
            OpShiftOp::Shr => write_then_flags_word(
                pre,
                post,
                dest,
                shr_result16(d, n),
                CF | OF,
                shr_flags16(d, n),
            ),
            OpShiftOp::Sar => write_then_flags_word(
                pre,
                post,
                dest,
                sar_result16(d, n),
                CF | OF,
                sar_flags16(d, n),
            ),
            OpShiftOp::Rol => write_then_flags_word(
                pre,
                post,
                dest,
                rol_result16(d, n),
                CF | OF,
                rol_flags16(d, n),
            ),
            OpShiftOp::Ror => write_then_flags_word(
                pre,
                post,
                dest,
                ror_result16(d, n),
                CF | OF,
                ror_flags16(d, n),
            ),
            OpShiftOp::Rcl => ({
                let v = rot17_left(with_carry17(d, cf0), (n % 17) as u32);
                write_then_flags_word(
                    pre,
                    post,
                    dest,
                    (v & 0xffff) as u16,
                    CF | OF,
                    (if v >= 0x10000 {
                        CF
                    } else {
                        0
                    }) | (if n == 1 && ((v & 0xffff >= 0x8000) != (v >= 0x10000)) {
                        OF
                    } else {
                        0
                    }),
                )
            }),
            OpShiftOp::Rcr => ({
                let v = rot17_right(with_carry17(d, cf0), (n % 17) as u32);
                write_then_flags_word(
                    pre,
                    post,
                    dest,
                    (v & 0xffff) as u16,
                    CF | OF,
                    (if v >= 0x10000 {
                        CF
                    } else {
                        0
                    }) | (if n == 1 && ((d >= 0x8000) != cf0) {
                        OF
                    } else {
                        0
                    }),
                )
            }),
        }
    }
}

/// Execute a shift or rotate of word width.
pub fn exec_shift_word<M: Memory, P: Memory>(
    cpu: &mut CPU<M, P>,
    op: &OpShiftOp,
    shift_type: &OpShiftType,
    dest: &OperandWord,
)
    ensures
        shift_word_effect(*old(cpu), *final(cpu), *op, *shift_type, *dest),
{
    let dest_val: u16 = cpu.get_operand(dest);
    let count = match shift_type {
        OpShiftType::Cl => RegisterByteType::read_reg(&cpu.register, &RegisterByteType::Cl),
        OpShiftType::One => 1,
    };
    if count == 0 {
        cpu.segment_selector = None;
        cpu.rep_selector = None;
        return ;
    }
    let has_cf = cpu.get_flags() & CF != 0;
    let (result, clear, set) = match op {
        OpShiftOp::Rol => alu_rol16(dest_val, count),
        OpShiftOp::Ror => alu_ror16(dest_val, count),
        OpShiftOp::Rcl => alu_rcl16(dest_val, count, has_cf),
        OpShiftOp::Rcr => alu_rcr16(dest_val, count, has_cf),
        OpShiftOp::Shl => alu_shl16(dest_val, count),
        OpShiftOp::Sal => alu_shl16(dest_val, count),
        OpShiftOp::Shr => alu_shr16(dest_val, count),
        OpShiftOp::Sar => alu_sar16(dest_val, count),
    };
    cpu.set_operand(dest, result);
    cpu.blit_flags(clear, set);
    cpu.segment_selector = None;
    cpu.rep_selector = None;
}


/// Stack-pointer steps compose: moving by two, three times, is moving by
/// two, four and six.
proof fn lemma_sp_steps(sp: u16)
    ensures
        wadd(wadd(sp, 2), 2) == wadd(sp, 4),
        wadd(wadd(sp, 4), 2) == wadd(sp, 6),
        wsub(wsub(sp, 2), 2) == wsub(sp, 4),
        wsub(wsub(sp, 4), 2) == wsub(sp, 6),
{
    assert(((sp + 2) % 0x10000 + 2) % 0x10000 == (sp + 4) % 0x10000) by (nonlinear_arith);
    assert(((sp + 4) % 0x10000 + 2) % 0x10000 == (sp + 6) % 0x10000) by (nonlinear_arith);
    assert(((sp - 2) % 0x10000 - 2) % 0x10000 == (sp - 4) % 0x10000) by (nonlinear_arith);
    assert(((sp - 4) % 0x10000 - 2) % 0x10000 == (sp - 6) % 0x10000) by (nonlinear_arith);
}


/// A byte moved up by a literal amount, wrapping.
fn badd(v: u8, k: u8) -> (r: u8)
    ensures
        r == ((v + k) % 0x100) as u8,
{
    v.wrapping_add(k)
}

/// A byte moved down by a literal amount, wrapping.
fn bsub(v: u8, k: u8) -> (r: u8)
    ensures
        r == ((v - k) % 0x100) as u8,
{
    v.wrapping_sub(k)
}

/// The accumulator low byte after a decimal adjust for addition, together
/// with the auxiliary and carry outcomes.
pub open spec fn daa_al(al: u8, af: bool, cf: bool) -> u8 {
    let low_adjust = (al & 0xf) > 9 || af;
    let al1 = if low_adjust {
        ((al + 6) % 0x100) as u8
    } else {
        al
    };
    if al > 0x99 || cf {
        ((al1 + 0x60) % 0x100) as u8
    } else {
        al1
    }
}

/// The auxiliary carry after a decimal adjust for addition.
pub open spec fn daa_af(al: u8, af: bool) -> bool {
    (al & 0xf) > 9 || af
}

/// The carry after a decimal adjust for addition.
pub open spec fn daa_cf(al: u8, cf: bool) -> bool {
    al > 0x99 || cf
}

/// The accumulator low byte after a decimal adjust for subtraction.
pub open spec fn das_al(al: u8, af: bool, cf: bool) -> u8 {
    let low_adjust = (al & 0xf) > 9 || af;
    let al1 = if low_adjust {
        ((al - 6) % 0x100) as u8
    } else {
        al
    };
    if al > 0x99 || cf {
        ((al1 - 0x60) % 0x100) as u8
    } else {
        al1
    }
}

/// What an operation without operands does.
pub open spec fn nullary_effect<M: Memory, P: Memory>(
    pre: CPU<M, P>,
    post: CPU<M, P>,
    op: OpNullaryOp,
) -> bool {
    let reg = pre.register;
    let f = reg.flags;
    let al = byte_reg(reg, RegisterByteType::Al);
    let ah = byte_reg(reg, RegisterByteType::Ah);
    let af = f & AF != 0;
    let cf = f & CF != 0;
    match op {
        OpNullaryOp::Xlat => post == clear_latches(
            CPU {
                register: with_byte_reg(
                    reg,
                    RegisterByteType::Al,
                    byte_at(
                        pre.memory,
                        phys(
                            operand_seg(reg, pre.segment_selector, None),
                            wadd(reg.bx, al as int),
                        ),
                    ),
                ),
                ..pre
            },
        ),
        OpNullaryOp::Lahf => post == clear_latches(
            CPU { register: with_byte_reg(reg, RegisterByteType::Ah, (f & 0xff) as u8), ..pre },
        ),
        OpNullaryOp::Sahf => flags_only(pre, post, 0xff, ah as u16),
        OpNullaryOp::Pushf => exists|m: CPU<M, P>|
            #[trigger] pushed(pre, m, f) && post == clear_latches(m),
        OpNullaryOp::Popf => post == clear_latches(
            CPU {
                register: Register { sp: wadd(reg.sp, 2), flags: stack_top(pre), ..reg },
                ..pre
            },
        ),
        OpNullaryOp::Aaa => ({
            let adjust = (al & 0xf) > 9 || af;
            let al1 = if adjust {
                ((al + 6) % 0x100) as u8
            } else {
                al
            };
            let ax1 = if adjust {
                ((((reg.ax & 0xff00) | ((al1 & 0xf) as u16)) & 0x00ff) | ((((ah + 1) % 0x100)
                    as u16) << 8))
            } else {
                (reg.ax & 0xff00) | ((al1 & 0xf) as u16)
            };
            post == clear_latches(
                CPU {
                    register: Register {
                        ax: ax1,
                        flags: blit(
                            f,
                            AF | CF,
                            if adjust {
                                AF | CF
                            } else {
                                0
                            },
                        ),
                        ..reg
                    },
                    ..pre
                },
            )
        }),
        OpNullaryOp::Aas => ({
            let adjust = (al & 0xf) > 9 || af;
            let al1 = if adjust {
                ((al - 6) % 0x100) as u8
            } else {
                al
            };
            let ax1 = if adjust {
                ((((reg.ax & 0xff00) | ((al1 & 0xf) as u16)) & 0x00ff) | ((((ah - 1) % 0x100)
                    as u16) << 8))
            } else {
                (reg.ax & 0xff00) | ((al1 & 0xf) as u16)
            };
            post == clear_latches(
                CPU {
                    register: Register {
                        ax: ax1,
                        flags: blit(
                            f,
                            AF | CF,
                            if adjust {
                                AF | CF
                            } else {
                                0
                            },
                        ),
                        ..reg
                    },
                    ..pre
                },
            )
        }),
        OpNullaryOp::Daa => post == clear_latches(
            CPU {
                register: Register {
                    ax: (reg.ax & 0xff00) | (daa_al(al, af, cf) as u16),
                    flags: blit(
                        f,
                        ARITH_FLAGS,
                        szp_flags8(daa_al(al, af, cf)) | (if daa_af(al, af) {
                            AF
                        } else {
                            0
                        }) | (if daa_cf(al, cf) {
                            CF
                        } else {
                            0
                        }),
                    ),
                    ..reg
                },
                ..pre
            },
        ),
        OpNullaryOp::Das => post == clear_latches(
            CPU {
                register: Register {
                    ax: (reg.ax & 0xff00) | (das_al(al, af, cf) as u16),
                    flags: blit(
                        f,
                        ARITH_FLAGS,
                        szp_flags8(das_al(al, af, cf)) | (if daa_af(al, af) {
                            AF
                        } else {
                            0
                        }) | (if daa_cf(al, cf) {
                            CF
                        } else {
                            0
                        }),
                    ),
                    ..reg
                },
                ..pre
            },
        ),
        OpNullaryOp::Aam => ({
            let q = (al / 10) as u8;
            let m = (al % 10) as u8;
            post == clear_latches(
                CPU {
                    register: with_flags(
                        Register { ax: (q * 0x100 + m) as u16, ..reg },
                        blit(f, LOGIC_FLAGS, szp_flags8(m)),
                    ),
                    ..pre
                },
            )
        }),
        OpNullaryOp::Aad => ({
            let al1 = ((al + ah * 10) % 0x100) as u8;
            post == clear_latches(
                CPU {
                    register: with_flags(
                        Register { ax: al1 as u16, ..reg },
                        blit(f, LOGIC_FLAGS, szp_flags8(al1)),
                    ),
                    ..pre
                },
            )
        }),
        OpNullaryOp::Cbw => post == clear_latches(
            CPU { register: Register { ax: al as i8 as i16 as u16, ..reg }, ..pre },
        ),
        OpNullaryOp::Cwd => post == clear_latches(
            CPU {
                register: Register {
                    dx: if reg.ax >= 0x8000 {
                        0xffff
                    } else {
                        0
                    },
                    ..reg
                },
                ..pre
            },
        ),
        OpNullaryOp::Rep => post == (CPU {
            segment_selector: None,
            rep_selector: Some(OpNullaryOp::Rep),
            ..pre
        }),
        OpNullaryOp::Repnz => post == (CPU {
            segment_selector: None,
            rep_selector: Some(OpNullaryOp::Repnz),
            ..pre
        }),
        OpNullaryOp::Into => post == clear_latches(pre),
        OpNullaryOp::Iret => ({
            let sp = reg.sp;
            post == clear_latches(
                CPU {
                    register: Register {
                        ip: word16_at(pre.memory, phys(reg.ss, sp)),
                        cs: word16_at(pre.memory, phys(reg.ss, wadd(sp, 2))),
                        flags: word16_at(pre.memory, phys(reg.ss, wadd(sp, 4))),
                        sp: wadd(sp, 6),
                        ..reg
                    },
                    ..pre
                },
            )
        }),
        OpNullaryOp::Clc => flags_only(pre, post, CF, 0),
        OpNullaryOp::Cmc => flags_only(
            pre,
            post,
            CF,
            if cf {
                0
            } else {
                CF
            },
        ),
        OpNullaryOp::Stc => flags_only(pre, post, CF, CF),
        OpNullaryOp::Cld => flags_only(pre, post, DF, 0),
        OpNullaryOp::Std => flags_only(pre, post, DF, DF),
        OpNullaryOp::Cli => flags_only(pre, post, IF, 0),
        OpNullaryOp::Sti => flags_only(pre, post, IF, IF),
        OpNullaryOp::Hlt => post == clear_latches(CPU { running: false, ..pre }),
        OpNullaryOp::Wait => post == clear_latches(pre),
        OpNullaryOp::Lock => post == clear_latches(pre),
    }
}



/// The decimal-adjust-for-addition step on the accumulator low byte: the
/// adjusted byte and the flag bits to set.
fn daa_step(al: u8, af: bool, cf: bool) -> (r: (u8, u16))
    ensures
        r.0 == daa_al(al, af, cf),
        r.1 == (szp_flags8(daa_al(al, af, cf)) | (if daa_af(al, af) {
            AF
        } else {
            0
        }) | (if daa_cf(al, cf) {
            CF
        } else {
            0
        })),
{
    let al1 = if (al & 0xf) > 9 || af {
        badd(al, 6)
    } else {
        al
    };
    let al2 = if al > 0x99 || cf {
        badd(al1, 0x60)
    } else {
        al1
    };
    let set = szp8(al2) | (if (al & 0xf) > 9 || af {
        AF
    } else {
        0u16
    }) | (if al > 0x99 || cf {
        CF
    } else {
        0u16
    });
    (al2, set)
}

/// The decimal-adjust-for-subtraction step on the accumulator low byte.
fn das_step(al: u8, af: bool, cf: bool) -> (r: (u8, u16))
    ensures
        r.0 == das_al(al, af, cf),
        r.1 == (szp_flags8(das_al(al, af, cf)) | (if daa_af(al, af) {
            AF
        } else {
            0
        }) | (if daa_cf(al, cf) {
            CF
        } else {
            0
        })),
{
    let al1 = if (al & 0xf) > 9 || af {
        bsub(al, 6)
    } else {
        al
    };
    let al2 = if al > 0x99 || cf {
        bsub(al1, 0x60)
    } else {
        al1
    };
    let set = szp8(al2) | (if (al & 0xf) > 9 || af {
        AF
    } else {
        0u16
    }) | (if al > 0x99 || cf {
        CF
    } else {
        0u16
    });
    (al2, set)
}

/// The ASCII-adjust step: the new accumulator word and the flag bits to
/// set, for the add direction when `up` and the subtract direction
/// otherwise.
fn aa_step(ax: u16, af: bool, up: bool) -> (r: (u16, u16))
    ensures
        ({
            let al = (ax & 0xff) as u8;
            let ah = ((ax >> 8) & 0xff) as u8;
            let adjust = (al & 0xf) > 9 || af;
            let al1 = if adjust {
                if up {
                    ((al + 6) % 0x100) as u8
                } else {
                    ((al - 6) % 0x100) as u8
                }
            } else {
                al
            };
            let ah1 = if up {
                ((ah + 1) % 0x100) as u8
            } else {
                ((ah - 1) % 0x100) as u8
            };
            let ax1 = if adjust {
                ((((ax & 0xff00) | ((al1 & 0xf) as u16)) & 0x00ff) | ((ah1 as u16) << 8))
            } else {
                (ax & 0xff00) | ((al1 & 0xf) as u16)
            };
            &&& r.0 == ax1
            &&& r.1 == (if adjust {
                AF | CF
            } else {
                0
            })
        }),
{
    proof {
        crate::mem::lemma_low_bits_u16();
    }
    let al = (ax & 0xff) as u8;
    let ah = ((ax >> 8) & 0xff) as u8;
    if (al & 0xf) > 9 || af {
        let al1 = if up {
            badd(al, 6)
        } else {
            bsub(al, 6)
        };
        let ah1 = if up {
            badd(ah, 1)
        } else {
            bsub(ah, 1)
        };
        let ax1 = (((ax & 0xff00) | ((al1 & 0xf) as u16)) & 0x00ff) | ((ah1 as u16) << 8);
        (ax1, AF | CF)
    } else {
        ((ax & 0xff00) | ((al & 0xf) as u16), 0)
    }
}

/// Execute the `Aaa` operation.
fn exec_aaa<M: Memory, P: Memory>(cpu: &mut CPU<M, P>)
    ensures
        nullary_effect(*old(cpu), *final(cpu), OpNullaryOp::Aaa),
{
    let af = cpu.get_flags() & AF != 0;
    let (ax1, set) = aa_step(cpu.register.ax, af, true);
    cpu.register.ax = ax1;
    cpu.blit_flags(AF | CF, set);
    cpu.segment_selector = None;
    cpu.rep_selector = None;
}

/// Execute the `Aas` operation.
fn exec_aas<M: Memory, P: Memory>(cpu: &mut CPU<M, P>)
    ensures
        nullary_effect(*old(cpu), *final(cpu), OpNullaryOp::Aas),
{
    let af = cpu.get_flags() & AF != 0;
    let (ax1, set) = aa_step(cpu.register.ax, af, false);
    cpu.register.ax = ax1;
    cpu.blit_flags(AF | CF, set);
    cpu.segment_selector = None;
    cpu.rep_selector = None;
}

/// Execute the `Daa` operation.
fn exec_daa<M: Memory, P: Memory>(cpu: &mut CPU<M, P>)
    ensures
        nullary_effect(*old(cpu), *final(cpu), OpNullaryOp::Daa),
{
    let al = RegisterByteType::read_reg(&cpu.register, &RegisterByteType::Al);
    let af = cpu.get_flags() & AF != 0;
    let cf = cpu.get_flags() & CF != 0;
    let (al2, set) = daa_step(al, af, cf);
    RegisterByteType::write_reg(&mut cpu.register, &RegisterByteType::Al, al2);
    cpu.blit_flags(ARITH_FLAGS, set);
    cpu.segment_selector = None;
    cpu.rep_selector = None;
}

/// Execute the `Das` operation.
fn exec_das<M: Memory, P: Memory>(cpu: &mut CPU<M, P>)
    ensures
        nullary_effect(*old(cpu), *final(cpu), OpNullaryOp::Das),
{
    let al = RegisterByteType::read_reg(&cpu.register, &RegisterByteType::Al);
    let af = cpu.get_flags() & AF != 0;
    let cf = cpu.get_flags() & CF != 0;
    let (al2, set) = das_step(al, af, cf);
    RegisterByteType::write_reg(&mut cpu.register, &RegisterByteType::Al, al2);
    cpu.blit_flags(ARITH_FLAGS, set);
    cpu.segment_selector = None;
    cpu.rep_selector = None;
}

/// Execute the `Aam` operation.
#[verifier::rlimit(100)]
#[verifier::spinoff_prover]
fn exec_aam<M: Memory, P: Memory>(cpu: &mut CPU<M, P>)
    ensures
        nullary_effect(*old(cpu), *final(cpu), OpNullaryOp::Aam),
{
    let al = RegisterByteType::read_reg(&cpu.register, &RegisterByteType::Al);
    let q = al / 10;
    let m = al % 10;
    cpu.register.ax = ((q as u16) << 8) | (m as u16);
    proof {
        assert(((q as u16) << 8) | (m as u16) == q * 0x100 + m) by (bit_vector)
            requires
                q < 0x100 && m < 10,
        ;
    }
    cpu.blit_flags(LOGIC_FLAGS, szp8(m));
    cpu.segment_selector = None;
    cpu.rep_selector = None;
}

/// Execute the `Aad` operation.
#[verifier::rlimit(100)]
#[verifier::spinoff_prover]
fn exec_aad<M: Memory, P: Memory>(cpu: &mut CPU<M, P>)
    ensures
        nullary_effect(*old(cpu), *final(cpu), OpNullaryOp::Aad),
{
    let al = RegisterByteType::read_reg(&cpu.register, &RegisterByteType::Al);
    let ah = RegisterByteType::read_reg(&cpu.register, &RegisterByteType::Ah);
    let sum: u16 = al as u16 + (ah as u16) * 10;
    proof {
        assert(sum & 0xff == sum % 0x100 && sum & 0xff < 0x100) by (bit_vector);
    }
    let al1 = (sum & 0xff) as u8;
    cpu.register.ax = al1 as u16;
    cpu.blit_flags(LOGIC_FLAGS, szp8(al1));
    cpu.segment_selector = None;
    cpu.rep_selector = None;
}

/// Execute the `Xlat` operation.
#[verifier::rlimit(100)]
#[verifier::spinoff_prover]
fn exec_xlat<M: Memory, P: Memory>(cpu: &mut CPU<M, P>)
    ensures
        nullary_effect(*old(cpu), *final(cpu), OpNullaryOp::Xlat),
{
    let al = RegisterByteType::read_reg(&cpu.register, &RegisterByteType::Al);
    let seg = cpu.get_segment_addr(None);
    let off = cpu.register.bx.wrapping_add(al as u16);
    let addr = segment_phys(seg, off);
    let v = crate::mem::read_u8(&cpu.memory, addr);
    RegisterByteType::write_reg(&mut cpu.register, &RegisterByteType::Al, v);
    cpu.segment_selector = None;
    cpu.rep_selector = None;
}

/// Execute the `Iret` operation.
#[verifier::rlimit(100)]
#[verifier::spinoff_prover]
fn exec_iret<M: Memory, P: Memory>(cpu: &mut CPU<M, P>)
    ensures
        nullary_effect(*old(cpu), *final(cpu), OpNullaryOp::Iret),
{
    proof {
        lemma_sp_steps(cpu.register.sp);
    }
    let ip = pop_val(cpu);
    cpu.register.ip = ip;
    let cs = pop_val(cpu);
    cpu.register.cs = cs;
    let f = pop_val(cpu);
    cpu.set_flags(f);
    cpu.segment_selector = None;
    cpu.rep_selector = None;
}

/// Execute the `Popf` operation.
#[verifier::rlimit(100)]
#[verifier::spinoff_prover]
fn exec_popf<M: Memory, P: Memory>(cpu: &mut CPU<M, P>)
    ensures
        nullary_effect(*old(cpu), *final(cpu), OpNullaryOp::Popf),
{
    let v = pop_val(cpu);
    cpu.set_flags(v);
    cpu.segment_selector = None;
    cpu.rep_selector = None;
}

/// Execute an operation without operands.
#[verifier::rlimit(40)]
pub fn exec_nullary<M: Memory, P: Memory>(cpu: &mut CPU<M, P>, op: &OpNullaryOp)
    ensures
        nullary_effect(*old(cpu), *final(cpu), *op),
{
    match op {
        OpNullaryOp::Xlat => {
            exec_xlat(cpu);
            return ;
        },
        OpNullaryOp::Lahf => {
            let f = cpu.get_flags();
            proof {
                crate::mem::lemma_low_bits_u16();
            }
            RegisterByteType::write_reg(
                &mut cpu.register,
                &RegisterByteType::Ah,
                (f & 0xff) as u8,
            );
        },
        OpNullaryOp::Sahf => {
            let ah = RegisterByteType::read_reg(&cpu.register, &RegisterByteType::Ah);
            cpu.blit_flags(0xff, ah as u16);
        },
        OpNullaryOp::Pushf => {
            let f = cpu.get_flags();
            push_val(cpu, f);
        },
        OpNullaryOp::Popf => {
            exec_popf(cpu);
            return ;
        },
        OpNullaryOp::Aaa => {
            exec_aaa(cpu);
            return ;
        },
        OpNullaryOp::Aas => {
            exec_aas(cpu);
            return ;
        },
        OpNullaryOp::Daa => {
            exec_daa(cpu);
            return ;
        },
        OpNullaryOp::Das => {
            exec_das(cpu);
            return ;
        },
        OpNullaryOp::Aam => {
            exec_aam(cpu);
            return ;
        },
        OpNullaryOp::Aad => {
            exec_aad(cpu);
            return ;
        },
        OpNullaryOp::Cbw => {
            let al = RegisterByteType::read_reg(&cpu.register, &RegisterByteType::Al);
            cpu.register.ax = al as i8 as i16 as u16;
        },
        OpNullaryOp::Cwd => {
            cpu.register.dx = if cpu.register.ax >= 0x8000 {
                0xffff
            } else {
                0
            };
        },
        OpNullaryOp::Rep => {
            cpu.segment_selector = None;
            cpu.rep_selector = Some(OpNullaryOp::Rep);
            return ;
        },
        OpNullaryOp::Repnz => {
            cpu.segment_selector = None;
            cpu.rep_selector = Some(OpNullaryOp::Repnz);
            return ;
        },
        OpNullaryOp::Into => {},
        OpNullaryOp::Iret => {
            exec_iret(cpu);
            return ;
        },
        OpNullaryOp::Clc => {
            cpu.blit_flags(CF, 0);
        },
        OpNullaryOp::Cmc => {
            let has_cf = cpu.get_flags() & CF != 0;
            cpu.blit_flags(
                CF,
                if has_cf {
                    0
                } else {
                    CF
                },
            );
        },
        OpNullaryOp::Stc => {
            cpu.blit_flags(CF, CF);
        },
        OpNullaryOp::Cld => {
            cpu.blit_flags(DF, 0);
        },
        OpNullaryOp::Std => {
            cpu.blit_flags(DF, DF);
        },
        OpNullaryOp::Cli => {
            cpu.blit_flags(IF, 0);
        },
        OpNullaryOp::Sti => {
            cpu.blit_flags(IF, IF);
        },
        OpNullaryOp::Hlt => {
            cpu.running = false;
        },
        OpNullaryOp::Wait => {},
        OpNullaryOp::Lock => {},
    }
    cpu.segment_selector = None;
    cpu.rep_selector = None;
}

/// Whether a conditional branch is taken, over the flag word and, for the
/// loop family, the already-decremented counter.
pub open spec fn cond_taken(op: OpCondJmpOp, f: u16, cx0: u16, cx1: u16) -> bool {
    match op {
        OpCondJmpOp::Jo => f & OF != 0,
        OpCondJmpOp::Jno => f & OF == 0,
        OpCondJmpOp::Js => f & SF != 0,
        OpCondJmpOp::Jns => f & SF == 0,
        OpCondJmpOp::Je => f & ZF != 0,
        OpCondJmpOp::Jne => f & ZF == 0,
        OpCondJmpOp::Jb => f & CF != 0,
        OpCondJmpOp::Jnb => f & CF == 0,
        OpCondJmpOp::Jbe => f & (CF | ZF) != 0,
        OpCondJmpOp::Ja => f & (CF | ZF) == 0,
        OpCondJmpOp::Jl => (f & SF == 0) != (f & OF == 0),
        OpCondJmpOp::Jge => (f & SF == 0) == (f & OF == 0),
        OpCondJmpOp::Jle => f & ZF != 0 || ((f & SF == 0) != (f & OF == 0)),
        OpCondJmpOp::Jg => f & ZF == 0 && ((f & SF == 0) == (f & OF == 0)),
        OpCondJmpOp::Jp => f & PF != 0,
        OpCondJmpOp::Jnp => f & PF == 0,
        OpCondJmpOp::Jcxz => cx0 == 0,
        OpCondJmpOp::Loop => cx1 != 0,
        OpCondJmpOp::Loope => cx1 != 0 && f & ZF != 0,
        OpCondJmpOp::Loopne => cx1 != 0 && f & ZF == 0,
    }
}

/// What a conditional short branch does: the loop family decrements `CX`,
/// and a taken branch moves `IP` by the sign-extended displacement.
pub open spec fn cond_jmp_effect<M: Memory, P: Memory>(
    pre: CPU<M, P>,
    post: CPU<M, P>,
    op: OpCondJmpOp,
    offset: i8,
) -> bool {
    let reg = pre.register;
    let cx1 = wsub(reg.cx, 1);
    let dec = op is Loop || op is Loope || op is Loopne;
    let taken = cond_taken(op, reg.flags, reg.cx, cx1);
    let reg1 = if dec {
        Register { cx: cx1, ..reg }
    } else {
        reg
    };
    let reg2 = if taken {
        Register { ip: ((reg1.ip + offset) % 0x10000) as u16, ..reg1 }
    } else {
        reg1
    };
    post == clear_latches(CPU { register: reg2, ..pre })
}

/// Execute a conditional short branch.
pub fn exec_cond_jmp<M: Memory, P: Memory>(cpu: &mut CPU<M, P>, op: &OpCondJmpOp, offset: i8)
    ensures
        cond_jmp_effect(*old(cpu), *final(cpu), *op, offset),
{
    let flags = cpu.get_flags();
    let matched = match op {
        OpCondJmpOp::Jo => flags & OF != 0,
        OpCondJmpOp::Jno => flags & OF == 0,
        OpCondJmpOp::Js => flags & SF != 0,
        OpCondJmpOp::Jns => flags & SF == 0,
        OpCondJmpOp::Je => flags & ZF != 0,
        OpCondJmpOp::Jne => flags & ZF == 0,
        OpCondJmpOp::Jb => flags & CF != 0,
        OpCondJmpOp::Jnb => flags & CF == 0,
        OpCondJmpOp::Jbe => flags & (CF | ZF) != 0,
        OpCondJmpOp::Ja => flags & (CF | ZF) == 0,
        OpCondJmpOp::Jl => (flags & SF == 0) != (flags & OF == 0),
        OpCondJmpOp::Jge => (flags & SF == 0) == (flags & OF == 0),
        OpCondJmpOp::Jle => flags & ZF != 0 || ((flags & SF == 0) != (flags & OF == 0)),
        OpCondJmpOp::Jg => flags & ZF == 0 && ((flags & SF == 0) == (flags & OF == 0)),
        OpCondJmpOp::Jp => flags & PF != 0,
        OpCondJmpOp::Jnp => flags & PF == 0,
        OpCondJmpOp::Jcxz => cpu.register.cx == 0,
        OpCondJmpOp::Loop => {
            let count = cpu.register.cx.wrapping_sub(1);
            cpu.register.cx = count;
            count != 0
        },
        OpCondJmpOp::Loope => {
            let count = cpu.register.cx.wrapping_sub(1);
            cpu.register.cx = count;
            count != 0 && (flags & ZF != 0)
        },
        OpCondJmpOp::Loopne => {
            let count = cpu.register.cx.wrapping_sub(1);
            cpu.register.cx = count;
            count != 0 && (flags & ZF == 0)
        },
    };
    if matched {
        let ip0 = cpu.register.ip;
        let new_ip = ip0.wrapping_add(offset as i8 as i16 as u16);
        proof {
            crate::mem::lemma_wrap_ops_u16();
        }
        cpu.register.ip = new_ip;
    }
    cpu.segment_selector = None;
    cpu.rep_selector = None;
}

/// Whether the direction flag says string pointers move down.
pub open spec fn df_down(f: u16) -> bool {
    f & DF != 0
}

/// A string pointer moved one element in the direction the flag says.
pub open spec fn step_off(off: u16, down: bool, sz: int) -> u16 {
    if down {
        wsub(off, sz)
    } else {
        wadd(off, sz)
    }
}

/// The physical address a string source element sits at: `DS:SI` unless a
/// segment override is latched.
pub open spec fn str_src_addr(r: Register, latch: Option<RegisterWordType>) -> int {
    phys(operand_seg(r, latch, None), r.si)
}

/// The physical address a string destination element sits at: always
/// `ES:DI`.
pub open spec fn str_dst_addr(r: Register) -> int {
    phys(r.es, r.di)
}

/// The registers after one string move of the given element size,
/// decrementing `CX` only under a repeat prefix.
pub open spec fn movs_regs(r: Register, sz: int, dec_cx: bool) -> Register {
    let down = df_down(r.flags);
    Register {
        si: step_off(r.si, down, sz),
        di: step_off(r.di, down, sz),
        cx: if dec_cx {
            wsub(r.cx, 1)
        } else {
            r.cx
        },
        ..r
    }
}

/// The register file after `n` string-move steps of the given element
/// size.
pub open spec fn movs_regs_n(r: Register, sz: int, dec_cx: bool, n: nat) -> Register
    decreases n,
{
    if n == 0 {
        r
    } else {
        movs_regs_n(movs_regs(r, sz, dec_cx), sz, dec_cx, (n - 1) as nat)
    }
}

/// The register file after `n` store or scan steps.
pub open spec fn stos_regs_n(r: Register, sz: int, dec_cx: bool, n: nat) -> Register
    decreases n,
{
    if n == 0 {
        r
    } else {
        stos_regs_n(stos_regs(r, sz, dec_cx), sz, dec_cx, (n - 1) as nat)
    }
}

/// A run of byte-wide string moves, memory state by memory state: step `i`
/// copies the source element of the registers as they stand after `i`
/// steps into the destination address of those registers.
pub open spec fn movs8_run<M: Memory>(
    ms: Seq<M>,
    r0: Register,
    latch: Option<RegisterWordType>,
    dec_cx: bool,
) -> bool {
    forall|i: int|
        0 <= i < ms.len() - 1 ==> #[trigger] mem_wrote(
            ms[i],
            ms[i + 1],
            str_dst_addr(movs_regs_n(r0, 1, dec_cx, i as nat)),
            seq![byte_at(ms[i], str_src_addr(movs_regs_n(r0, 1, dec_cx, i as nat), latch))],
        )
}

/// A run of word-wide string moves.
pub open spec fn movs16_run<M: Memory>(
    ms: Seq<M>,
    r0: Register,
    latch: Option<RegisterWordType>,
    dec_cx: bool,
) -> bool {
    forall|i: int|
        0 <= i < ms.len() - 1 ==> #[trigger] mem_wrote(
            ms[i],
            ms[i + 1],
            str_dst_addr(movs_regs_n(r0, 2, dec_cx, i as nat)),
            word_bytes(
                word16_at(ms[i], str_src_addr(movs_regs_n(r0, 2, dec_cx, i as nat), latch)),
            ),
        )
}

/// A run of byte-wide accumulator stores: every step writes the low
/// accumulator byte at the walking destination.
pub open spec fn stos8_run<M: Memory>(ms: Seq<M>, r0: Register, dec_cx: bool) -> bool {
    forall|i: int|
        0 <= i < ms.len() - 1 ==> #[trigger] mem_wrote(
            ms[i],
            ms[i + 1],
            str_dst_addr(stos_regs_n(r0, 1, dec_cx, i as nat)),
            seq![byte_reg(r0, RegisterByteType::Al)],
        )
}

/// A run of word-wide accumulator stores.
pub open spec fn stos16_run<M: Memory>(ms: Seq<M>, r0: Register, dec_cx: bool) -> bool {
    forall|i: int|
        0 <= i < ms.len() - 1 ==> #[trigger] mem_wrote(
            ms[i],
            ms[i + 1],
            str_dst_addr(stos_regs_n(r0, 2, dec_cx, i as nat)),
            word_bytes(r0.ax),
        )
}

/// The registers after one store or scan step: only `DI` walks.
pub open spec fn stos_regs(r: Register, sz: int, dec_cx: bool) -> Register {
    let down = df_down(r.flags);
    Register {
        di: step_off(r.di, down, sz),
        cx: if dec_cx {
            wsub(r.cx, 1)
        } else {
            r.cx
        },
        ..r
    }
}

/// The registers after one byte load: `AL` takes the source element and
/// `SI` walks.
pub open spec fn lods8_regs<M: Memory>(
    m: M,
    r: Register,
    latch: Option<RegisterWordType>,
    dec_cx: bool,
) -> Register {
    let down = df_down(r.flags);
    Register {
        ax: (r.ax & 0xff00) | (byte_at(m, str_src_addr(r, latch)) as u16),
        si: step_off(r.si, down, 1),
        cx: if dec_cx {
            wsub(r.cx, 1)
        } else {
            r.cx
        },
        ..r
    }
}

/// The registers after one word load.
pub open spec fn lods16_regs<M: Memory>(
    m: M,
    r: Register,
    latch: Option<RegisterWordType>,
    dec_cx: bool,
) -> Register {
    let down = df_down(r.flags);
    Register {
        ax: word16_at(m, str_src_addr(r, latch)),
        si: step_off(r.si, down, 2),
        cx: if dec_cx {
            wsub(r.cx, 1)
        } else {
            r.cx
        },
        ..r
    }
}

/// The registers after `k` loads: memory never changes, so the outcome is a
/// plain recursion.
pub open spec fn rep_lods8_regs<M: Memory>(
    m: M,
    r: Register,
    latch: Option<RegisterWordType>,
    k: nat,
) -> Register
    decreases k,
{
    if k == 0 {
        r
    } else {
        rep_lods8_regs(m, lods8_regs(m, r, latch, true), latch, (k - 1) as nat)
    }
}

/// The word-wide counterpart of `rep_lods8_regs`.
pub open spec fn rep_lods16_regs<M: Memory>(
    m: M,
    r: Register,
    latch: Option<RegisterWordType>,
    k: nat,
) -> Register
    decreases k,
{
    if k == 0 {
        r
    } else {
        rep_lods16_regs(m, lods16_regs(m, r, latch, true), latch, (k - 1) as nat)
    }
}

/// The registers after one byte compare: flags from the source element
/// minus the destination element, both pointers walking.
pub open spec fn cmps8_regs<M: Memory>(
    m: M,
    r: Register,
    latch: Option<RegisterWordType>,
    dec_cx: bool,
) -> Register {
    let a = byte_at(m, str_src_addr(r, latch));
    let b = byte_at(m, str_dst_addr(r));
    let down = df_down(r.flags);
    Register {
        si: step_off(r.si, down, 1),
        di: step_off(r.di, down, 1),
        cx: if dec_cx {
            wsub(r.cx, 1)
        } else {
            r.cx
        },
        flags: blit(r.flags, ARITH_FLAGS, sub_flags8(b, a, false)),
        ..r
    }
}

/// The word-wide counterpart of `cmps8_regs`.
pub open spec fn cmps16_regs<M: Memory>(
    m: M,
    r: Register,
    latch: Option<RegisterWordType>,
    dec_cx: bool,
) -> Register {
    let a = word16_at(m, str_src_addr(r, latch));
    let b = word16_at(m, str_dst_addr(r));
    let down = df_down(r.flags);
    Register {
        si: step_off(r.si, down, 2),
        di: step_off(r.di, down, 2),
        cx: if dec_cx {
            wsub(r.cx, 1)
        } else {
            r.cx
        },
        flags: blit(r.flags, ARITH_FLAGS, sub_flags16(b, a, false)),
        ..r
    }
}

/// The registers after one byte scan: flags from the accumulator minus the
/// destination element, `DI` walking.
pub open spec fn scas8_regs<M: Memory>(m: M, r: Register, dec_cx: bool) -> Register {
    let b = byte_at(m, str_dst_addr(r));
    let down = df_down(r.flags);
    Register {
        di: step_off(r.di, down, 1),
        cx: if dec_cx {
            wsub(r.cx, 1)
        } else {
            r.cx
        },
        flags: blit(
            r.flags,
            ARITH_FLAGS,
            sub_flags8(b, byte_reg(r, RegisterByteType::Al), false),
        ),
        ..r
    }
}

/// The word-wide counterpart of `scas8_regs`.
pub open spec fn scas16_regs<M: Memory>(m: M, r: Register, dec_cx: bool) -> Register {
    let b = word16_at(m, str_dst_addr(r));
    let down = df_down(r.flags);
    Register {
        di: step_off(r.di, down, 2),
        cx: if dec_cx {
            wsub(r.cx, 1)
        } else {
            r.cx
        },
        flags: blit(r.flags, ARITH_FLAGS, sub_flags16(b, r.ax, false)),
        ..r
    }
}

/// The registers after a repeated compare: one element per step while `CX`
/// counts down and the zero flag keeps the value the prefix asks for.
pub open spec fn rep_cmps8_regs<M: Memory>(
    m: M,
    r: Register,
    latch: Option<RegisterWordType>,
    want_zf: bool,
) -> Register
    decreases r.cx,
{
    if r.cx == 0 {
        r
    } else {
        let r1 = cmps8_regs(m, r, latch, true);
        if (r1.flags & ZF != 0) == want_zf && r1.cx < r.cx {
            rep_cmps8_regs(m, r1, latch, want_zf)
        } else {
            r1
        }
    }
}

/// The word-wide counterpart of `rep_cmps8_regs`.
pub open spec fn rep_cmps16_regs<M: Memory>(
    m: M,
    r: Register,
    latch: Option<RegisterWordType>,
    want_zf: bool,
) -> Register
    decreases r.cx,
{
    if r.cx == 0 {
        r
    } else {
        let r1 = cmps16_regs(m, r, latch, true);
        if (r1.flags & ZF != 0) == want_zf && r1.cx < r.cx {
            rep_cmps16_regs(m, r1, latch, want_zf)
        } else {
            r1
        }
    }
}

/// The registers after a repeated byte scan.
pub open spec fn rep_scas8_regs<M: Memory>(m: M, r: Register, want_zf: bool) -> Register
    decreases r.cx,
{
    if r.cx == 0 {
        r
    } else {
        let r1 = scas8_regs(m, r, true);
        if (r1.flags & ZF != 0) == want_zf && r1.cx < r.cx {
            rep_scas8_regs(m, r1, want_zf)
        } else {
            r1
        }
    }
}

/// The registers after a repeated word scan.
pub open spec fn rep_scas16_regs<M: Memory>(m: M, r: Register, want_zf: bool) -> Register
    decreases r.cx,
{
    if r.cx == 0 {
        r
    } else {
        let r1 = scas16_regs(m, r, true);
        if (r1.flags & ZF != 0) == want_zf && r1.cx < r.cx {
            rep_scas16_regs(m, r1, want_zf)
        } else {
            r1
        }
    }
}

/// Whether a latched repeat prefix keeps a compare or scan going: the plain
/// repeat continues while the zero flag is set, the not-zero form while it
/// is clear.
pub open spec fn rep_want_zf(rep: OpNullaryOp) -> bool {
    rep != OpNullaryOp::Repnz
}


/// One byte-wide string move: copy the source element to `ES:DI` and walk
/// the pointers.
fn movs8_one<M: Memory, P: Memory>(cpu: &mut CPU<M, P>, dec_cx: bool)
    ensures
        mem_wrote(
            old(cpu).memory,
            final(cpu).memory,
            str_dst_addr(old(cpu).register),
            seq![byte_at(old(cpu).memory, str_src_addr(old(cpu).register, old(cpu).segment_selector))],
        ),
        *final(cpu) == (CPU {
            memory: final(cpu).memory,
            register: movs_regs(old(cpu).register, 1, dec_cx),
            ..*old(cpu)
        }),
{
    let seg = cpu.get_segment_addr(None);
    let src = segment_phys(seg, cpu.register.si);
    let v = crate::mem::read_u8(&cpu.memory, src);
    let dst = segment_phys(cpu.register.es, cpu.register.di);
    crate::mem::write_u8(&mut cpu.memory, dst, v);
    let down = cpu.get_flags() & DF != 0;
    cpu.register.si = if down {
        cpu.register.si.wrapping_sub(1)
    } else {
        cpu.register.si.wrapping_add(1)
    };
    cpu.register.di = if down {
        cpu.register.di.wrapping_sub(1)
    } else {
        cpu.register.di.wrapping_add(1)
    };
    if dec_cx {
        cpu.register.cx = cpu.register.cx.wrapping_sub(1);
    }
}

/// One word-wide string move.
fn movs16_one<M: Memory, P: Memory>(cpu: &mut CPU<M, P>, dec_cx: bool)
    ensures
        mem_wrote(
            old(cpu).memory,
            final(cpu).memory,
            str_dst_addr(old(cpu).register),
            word_bytes(
                word16_at(
                    old(cpu).memory,
                    str_src_addr(old(cpu).register, old(cpu).segment_selector),
                ),
            ),
        ),
        *final(cpu) == (CPU {
            memory: final(cpu).memory,
            register: movs_regs(old(cpu).register, 2, dec_cx),
            ..*old(cpu)
        }),
{
    let seg = cpu.get_segment_addr(None);
    let src = segment_phys(seg, cpu.register.si);
    let v = read_u16(&cpu.memory, src);
    let dst = segment_phys(cpu.register.es, cpu.register.di);
    write_u16(&mut cpu.memory, dst, v);
    let down = cpu.get_flags() & DF != 0;
    cpu.register.si = if down {
        cpu.register.si.wrapping_sub(2)
    } else {
        cpu.register.si.wrapping_add(2)
    };
    cpu.register.di = if down {
        cpu.register.di.wrapping_sub(2)
    } else {
        cpu.register.di.wrapping_add(2)
    };
    if dec_cx {
        cpu.register.cx = cpu.register.cx.wrapping_sub(1);
    }
}

/// Register-file iteration unrolls from the front: one step, then the rest.
proof fn lemma_movs_regs_n_unfold(r: Register, sz: int, dec_cx: bool, n: nat)
    ensures
        movs_regs_n(r, sz, dec_cx, (n + 1) as nat) == movs_regs_n(
            movs_regs(r, sz, dec_cx),
            sz,
            dec_cx,
            n,
        ),
        movs_regs_n(r, sz, dec_cx, (n + 1) as nat) == movs_regs(
            movs_regs_n(r, sz, dec_cx, n),
            sz,
            dec_cx,
        ),
    decreases n,
{
    assert(((n + 1) as nat - 1) as nat == n);
    if n > 0 {
        lemma_movs_regs_n_unfold(movs_regs(r, sz, dec_cx), sz, dec_cx, (n - 1) as nat);
        assert(movs_regs_n(r, sz, dec_cx, (n + 1) as nat) == movs_regs_n(
            movs_regs(r, sz, dec_cx),
            sz,
            dec_cx,
            n,
        ));
    } else {
        assert(movs_regs_n(r, sz, dec_cx, 1) == movs_regs_n(movs_regs(r, sz, dec_cx), sz, dec_cx, 0));
    }
}

/// Store-register iteration unrolls from the front and from the back.
proof fn lemma_stos_regs_n_unfold(r: Register, sz: int, dec_cx: bool, n: nat)
    ensures
        stos_regs_n(r, sz, dec_cx, (n + 1) as nat) == stos_regs_n(
            stos_regs(r, sz, dec_cx),
            sz,
            dec_cx,
            n,
        ),
        stos_regs_n(r, sz, dec_cx, (n + 1) as nat) == stos_regs(
            stos_regs_n(r, sz, dec_cx, n),
            sz,
            dec_cx,
        ),
    decreases n,
{
    assert(((n + 1) as nat - 1) as nat == n);
    if n > 0 {
        lemma_stos_regs_n_unfold(stos_regs(r, sz, dec_cx), sz, dec_cx, (n - 1) as nat);
        assert(stos_regs_n(r, sz, dec_cx, (n + 1) as nat) == stos_regs_n(
            stos_regs(r, sz, dec_cx),
            sz,
            dec_cx,
            n,
        ));
    } else {
        assert(stos_regs_n(r, sz, dec_cx, 1) == stos_regs_n(stos_regs(r, sz, dec_cx), sz, dec_cx, 0));
    }
}

/// What a string move does: one element without a repeat prefix, else one
/// element per count in `CX`, witnessed by the memory states the run walks
/// through, with the prefix latches consumed.
pub open spec fn movs_effect<M: Memory, P: Memory>(
    pre: CPU<M, P>,
    post: CPU<M, P>,
    size: OpSize,
) -> bool {
    let k: nat = if pre.rep_selector is Some {
        pre.register.cx as nat
    } else {
        1
    };
    let dec = pre.rep_selector is Some;
    let sz: int = if size is Byte {
        1
    } else {
        2
    };
    &&& post == (CPU {
        memory: post.memory,
        register: movs_regs_n(pre.register, sz, dec, k),
        segment_selector: None,
        rep_selector: None,
        ..pre
    })
    &&& exists|ms: Seq<M>|
        #![trigger movs8_run(ms, pre.register, pre.segment_selector, dec)]
        #![trigger movs16_run(ms, pre.register, pre.segment_selector, dec)]
        {
            &&& ms.len() == k + 1
            &&& ms[0] == pre.memory
            &&& ms[k as int] == post.memory
            &&& if size is Byte {
                movs8_run(ms, pre.register, pre.segment_selector, dec)
            } else {
                movs16_run(ms, pre.register, pre.segment_selector, dec)
            }
        }
}

/// Execute a string move, honouring a latched repeat prefix.
pub fn exec_movs<M: Memory, P: Memory>(cpu: &mut CPU<M, P>, size: &OpSize)
    ensures
        movs_effect(*old(cpu), *final(cpu), *size),
{
    let ghost pre = *cpu;
    let is_rep = match cpu.rep_selector {
        Some(_) => true,
        None => false,
    };
    let ghost mut ms: Seq<M> = seq![cpu.memory];
    match size {
        OpSize::Byte => {
            if is_rep {
                while cpu.register.cx != 0
                    invariant
                        ms.len() >= 1,
                        ms.len() - 1 <= pre.register.cx,
                        ms[0] == pre.memory,
                        ms.last() == cpu.memory,
                        *cpu == (CPU {
                            memory: cpu.memory,
                            register: movs_regs_n(
                                pre.register,
                                1,
                                true,
                                (ms.len() - 1) as nat,
                            ),
                            ..pre
                        }),
                        cpu.register.cx == pre.register.cx - (ms.len() - 1),
                        movs8_run(ms, pre.register, pre.segment_selector, true),
                    decreases cpu.register.cx,
                {
                    let ghost n = (ms.len() - 1) as nat;
                    movs8_one(cpu, true);
                    proof {
                        lemma_movs_regs_n_unfold(pre.register, 1, true, n);
                        ms = ms.push(cpu.memory);
                        assert(forall|i: int|
                            0 <= i < ms.len() - 1 ==> ms[i] == ms.drop_last()[i] || i == ms.len()
                                - 2);
                    }
                }
                proof {
                    assert(ms.len() - 1 == pre.register.cx);
                    assert((ms.len() - 1) as nat == pre.register.cx as nat);
                }
            } else {
                movs8_one(cpu, false);
                proof {
                    ms = ms.push(cpu.memory);
                    lemma_movs_regs_n_unfold(pre.register, 1, false, 0);
                    assert(movs8_run(ms, pre.register, pre.segment_selector, false));
                }
            }
        },
        OpSize::Word => {
            if is_rep {
                while cpu.register.cx != 0
                    invariant
                        ms.len() >= 1,
                        ms.len() - 1 <= pre.register.cx,
                        ms[0] == pre.memory,
                        ms.last() == cpu.memory,
                        *cpu == (CPU {
                            memory: cpu.memory,
                            register: movs_regs_n(
                                pre.register,
                                2,
                                true,
                                (ms.len() - 1) as nat,
                            ),
                            ..pre
                        }),
                        cpu.register.cx == pre.register.cx - (ms.len() - 1),
                        movs16_run(ms, pre.register, pre.segment_selector, true),
                    decreases cpu.register.cx,
                {
                    let ghost n = (ms.len() - 1) as nat;
                    movs16_one(cpu, true);
                    proof {
                        lemma_movs_regs_n_unfold(pre.register, 2, true, n);
                        ms = ms.push(cpu.memory);
                    }
                }
                proof {
                    assert(ms.len() - 1 == pre.register.cx);
                    assert((ms.len() - 1) as nat == pre.register.cx as nat);
                }
            } else {
                movs16_one(cpu, false);
                proof {
                    ms = ms.push(cpu.memory);
                    lemma_movs_regs_n_unfold(pre.register, 2, false, 0);
                    assert(movs16_run(ms, pre.register, pre.segment_selector, false));
                }
            }
        },
    }
    cpu.segment_selector = None;
    cpu.rep_selector = None;
}

/// What an accumulator store does: one element, or one per count under a
/// repeat prefix, witnessed by the memory states the run walks through.
pub open spec fn stos_effect<M: Memory, P: Memory>(
    pre: CPU<M, P>,
    post: CPU<M, P>,
    size: OpSize,
) -> bool {
    let k: nat = if pre.rep_selector is Some {
        pre.register.cx as nat
    } else {
        1
    };
    let dec = pre.rep_selector is Some;
    let sz: int = if size is Byte {
        1
    } else {
        2
    };
    &&& post == (CPU {
        memory: post.memory,
        register: stos_regs_n(pre.register, sz, dec, k),
        segment_selector: None,
        rep_selector: None,
        ..pre
    })
    &&& exists|ms: Seq<M>|
        #![trigger stos8_run(ms, pre.register, dec)]
        #![trigger stos16_run(ms, pre.register, dec)]
        {
            &&& ms.len() == k + 1
            &&& ms[0] == pre.memory
            &&& ms[k as int] == post.memory
            &&& if size is Byte {
                stos8_run(ms, pre.register, dec)
            } else {
                stos16_run(ms, pre.register, dec)
            }
        }
}

/// One byte-wide accumulator store.
fn stos8_one<M: Memory, P: Memory>(cpu: &mut CPU<M, P>, dec_cx: bool)
    ensures
        mem_wrote(
            old(cpu).memory,
            final(cpu).memory,
            str_dst_addr(old(cpu).register),
            seq![byte_reg(old(cpu).register, RegisterByteType::Al)],
        ),
        *final(cpu) == (CPU {
            memory: final(cpu).memory,
            register: stos_regs(old(cpu).register, 1, dec_cx),
            ..*old(cpu)
        }),
{
    let v = RegisterByteType::read_reg(&cpu.register, &RegisterByteType::Al);
    let dst = segment_phys(cpu.register.es, cpu.register.di);
    crate::mem::write_u8(&mut cpu.memory, dst, v);
    let down = cpu.get_flags() & DF != 0;
    cpu.register.di = if down {
        cpu.register.di.wrapping_sub(1)
    } else {
        cpu.register.di.wrapping_add(1)
    };
    if dec_cx {
        cpu.register.cx = cpu.register.cx.wrapping_sub(1);
    }
}

/// One word-wide accumulator store.
fn stos16_one<M: Memory, P: Memory>(cpu: &mut CPU<M, P>, dec_cx: bool)
    ensures
        mem_wrote(
            old(cpu).memory,
            final(cpu).memory,
            str_dst_addr(old(cpu).register),
            word_bytes(old(cpu).register.ax),
        ),
        *final(cpu) == (CPU {
            memory: final(cpu).memory,
            register: stos_regs(old(cpu).register, 2, dec_cx),
            ..*old(cpu)
        }),
{
    let v = cpu.register.ax;
    let dst = segment_phys(cpu.register.es, cpu.register.di);
    write_u16(&mut cpu.memory, dst, v);
    let down = cpu.get_flags() & DF != 0;
    cpu.register.di = if down {
        cpu.register.di.wrapping_sub(2)
    } else {
        cpu.register.di.wrapping_add(2)
    };
    if dec_cx {
        cpu.register.cx = cpu.register.cx.wrapping_sub(1);
    }
}

/// Iterated store registers keep the accumulator and flag word.
proof fn lemma_stos_regs_n_frame(r: Register, sz: int, dec_cx: bool, n: nat)
    ensures
        stos_regs_n(r, sz, dec_cx, n).ax == r.ax,
        stos_regs_n(r, sz, dec_cx, n).flags == r.flags,
        stos_regs_n(r, sz, dec_cx, n).es == r.es,
    decreases n,
{
    if n > 0 {
        lemma_stos_regs_n_frame(stos_regs(r, sz, dec_cx), sz, dec_cx, (n - 1) as nat);
    }
}

/// Execute an accumulator store, honouring a latched repeat prefix.
pub fn exec_stos<M: Memory, P: Memory>(cpu: &mut CPU<M, P>, size: &OpSize)
    ensures
        stos_effect(*old(cpu), *final(cpu), *size),
{
    let ghost pre = *cpu;
    let is_rep = match cpu.rep_selector {
        Some(_) => true,
        None => false,
    };
    let ghost mut ms: Seq<M> = seq![cpu.memory];
    match size {
        OpSize::Byte => {
            if is_rep {
                while cpu.register.cx != 0
                    invariant
                        ms.len() >= 1,
                        ms.len() - 1 <= pre.register.cx,
                        ms[0] == pre.memory,
                        ms.last() == cpu.memory,
                        *cpu == (CPU {
                            memory: cpu.memory,
                            register: stos_regs_n(pre.register, 1, true, (ms.len() - 1) as nat),
                            ..pre
                        }),
                        cpu.register.cx == pre.register.cx - (ms.len() - 1),
                        stos8_run(ms, pre.register, true),
                    decreases cpu.register.cx,
                {
                    let ghost n = (ms.len() - 1) as nat;
                    proof {
                        lemma_stos_regs_n_frame(pre.register, 1, true, n);
                    }
                    stos8_one(cpu, true);
                    proof {
                        lemma_stos_regs_n_unfold(pre.register, 1, true, n);
                        ms = ms.push(cpu.memory);
                    }
                }
                proof {
                    assert((ms.len() - 1) as nat == pre.register.cx as nat);
                }
            } else {
                stos8_one(cpu, false);
                proof {
                    ms = ms.push(cpu.memory);
                    lemma_stos_regs_n_unfold(pre.register, 1, false, 0);
                    assert(stos8_run(ms, pre.register, false));
                }
            }
        },
        OpSize::Word => {
            if is_rep {
                while cpu.register.cx != 0
                    invariant
                        ms.len() >= 1,
                        ms.len() - 1 <= pre.register.cx,
                        ms[0] == pre.memory,
                        ms.last() == cpu.memory,
                        *cpu == (CPU {
                            memory: cpu.memory,
                            register: stos_regs_n(pre.register, 2, true, (ms.len() - 1) as nat),
                            ..pre
                        }),
                        cpu.register.cx == pre.register.cx - (ms.len() - 1),
                        stos16_run(ms, pre.register, true),
                    decreases cpu.register.cx,
                {
                    let ghost n = (ms.len() - 1) as nat;
                    proof {
                        lemma_stos_regs_n_frame(pre.register, 2, true, n);
                    }
                    stos16_one(cpu, true);
                    proof {
                        lemma_stos_regs_n_unfold(pre.register, 2, true, n);
                        ms = ms.push(cpu.memory);
                    }
                }
                proof {
                    assert((ms.len() - 1) as nat == pre.register.cx as nat);
                }
            } else {
                stos16_one(cpu, false);
                proof {
                    ms = ms.push(cpu.memory);
                    lemma_stos_regs_n_unfold(pre.register, 2, false, 0);
                    assert(stos16_run(ms, pre.register, false));
                }
            }
        },
    }
    cpu.segment_selector = None;
    cpu.rep_selector = None;
}

/// What a string load does: memory never changes; the accumulator takes
/// the element the run ends on and the pointers walk.
pub open spec fn lods_effect<M: Memory, P: Memory>(
    pre: CPU<M, P>,
    post: CPU<M, P>,
    size: OpSize,
) -> bool {
    let rfin = match pre.rep_selector {
        None => if size is Byte {
            lods8_regs(pre.memory, pre.register, pre.segment_selector, false)
        } else {
            lods16_regs(pre.memory, pre.register, pre.segment_selector, false)
        },
        Some(_) => if size is Byte {
            rep_lods8_regs(
                pre.memory,
                pre.register,
                pre.segment_selector,
                pre.register.cx as nat,
            )
        } else {
            rep_lods16_regs(
                pre.memory,
                pre.register,
                pre.segment_selector,
                pre.register.cx as nat,
            )
        },
    };
    post == (CPU { register: rfin, segment_selector: None, rep_selector: None, ..pre })
}

/// One byte-wide load into the accumulator.
fn lods8_one<M: Memory, P: Memory>(cpu: &mut CPU<M, P>, dec_cx: bool)
    ensures
        *final(cpu) == (CPU {
            register: lods8_regs(old(cpu).memory, old(cpu).register, old(cpu).segment_selector, dec_cx),
            ..*old(cpu)
        }),
{
    let seg = cpu.get_segment_addr(None);
    let src = segment_phys(seg, cpu.register.si);
    let v = crate::mem::read_u8(&cpu.memory, src);
    RegisterByteType::write_reg(&mut cpu.register, &RegisterByteType::Al, v);
    let down = cpu.get_flags() & DF != 0;
    cpu.register.si = if down {
        cpu.register.si.wrapping_sub(1)
    } else {
        cpu.register.si.wrapping_add(1)
    };
    if dec_cx {
        cpu.register.cx = cpu.register.cx.wrapping_sub(1);
    }
}

/// One word-wide load into the accumulator.
fn lods16_one<M: Memory, P: Memory>(cpu: &mut CPU<M, P>, dec_cx: bool)
    ensures
        *final(cpu) == (CPU {
            register: lods16_regs(
                old(cpu).memory,
                old(cpu).register,
                old(cpu).segment_selector,
                dec_cx,
            ),
            ..*old(cpu)
        }),
{
    let seg = cpu.get_segment_addr(None);
    let src = segment_phys(seg, cpu.register.si);
    let v = read_u16(&cpu.memory, src);
    cpu.register.ax = v;
    let down = cpu.get_flags() & DF != 0;
    cpu.register.si = if down {
        cpu.register.si.wrapping_sub(2)
    } else {
        cpu.register.si.wrapping_add(2)
    };
    if dec_cx {
        cpu.register.cx = cpu.register.cx.wrapping_sub(1);
    }
}

/// Execute a string load, honouring a latched repeat prefix.
pub fn exec_lods<M: Memory, P: Memory>(cpu: &mut CPU<M, P>, size: &OpSize)
    ensures
        lods_effect(*old(cpu), *final(cpu), *size),
{
    let ghost pre = *cpu;
    let is_rep = match cpu.rep_selector {
        Some(_) => true,
        None => false,
    };
    match size {
        OpSize::Byte => {
            if is_rep {
                while cpu.register.cx != 0
                    invariant
                        *cpu == (CPU { register: cpu.register, ..pre }),
                        rep_lods8_regs(
                            pre.memory,
                            pre.register,
                            pre.segment_selector,
                            pre.register.cx as nat,
                        ) == rep_lods8_regs(
                            pre.memory,
                            cpu.register,
                            pre.segment_selector,
                            cpu.register.cx as nat,
                        ),
                        cpu.register.cx <= pre.register.cx,
                    decreases cpu.register.cx,
                {
                    lods8_one(cpu, true);
                }
            } else {
                lods8_one(cpu, false);
            }
        },
        OpSize::Word => {
            if is_rep {
                while cpu.register.cx != 0
                    invariant
                        *cpu == (CPU { register: cpu.register, ..pre }),
                        rep_lods16_regs(
                            pre.memory,
                            pre.register,
                            pre.segment_selector,
                            pre.register.cx as nat,
                        ) == rep_lods16_regs(
                            pre.memory,
                            cpu.register,
                            pre.segment_selector,
                            cpu.register.cx as nat,
                        ),
                        cpu.register.cx <= pre.register.cx,
                    decreases cpu.register.cx,
                {
                    lods16_one(cpu, true);
                }
            } else {
                lods16_one(cpu, false);
            }
        },
    }
    cpu.segment_selector = None;
    cpu.rep_selector = None;
}

/// What a string compare does: flags and pointers from one element, or,
/// under a repeat prefix, from the run that counts `CX` down while the zero
/// flag keeps the asked-for value. Memory never changes.
pub open spec fn cmps_effect<M: Memory, P: Memory>(
    pre: CPU<M, P>,
    post: CPU<M, P>,
    size: OpSize,
) -> bool {
    let rfin = match pre.rep_selector {
        None => if size is Byte {
            cmps8_regs(pre.memory, pre.register, pre.segment_selector, false)
        } else {
            cmps16_regs(pre.memory, pre.register, pre.segment_selector, false)
        },
        Some(rep) => if size is Byte {
            rep_cmps8_regs(pre.memory, pre.register, pre.segment_selector, rep_want_zf(rep))
        } else {
            rep_cmps16_regs(pre.memory, pre.register, pre.segment_selector, rep_want_zf(rep))
        },
    };
    post == (CPU { register: rfin, segment_selector: None, rep_selector: None, ..pre })
}

/// One byte-wide compare step.
fn cmps8_one<M: Memory, P: Memory>(cpu: &mut CPU<M, P>, dec_cx: bool)
    ensures
        *final(cpu) == (CPU {
            register: cmps8_regs(old(cpu).memory, old(cpu).register, old(cpu).segment_selector, dec_cx),
            ..*old(cpu)
        }),
{
    let seg = cpu.get_segment_addr(None);
    let src = segment_phys(seg, cpu.register.si);
    let a = crate::mem::read_u8(&cpu.memory, src);
    let dst = segment_phys(cpu.register.es, cpu.register.di);
    let b = crate::mem::read_u8(&cpu.memory, dst);
    let down = cpu.get_flags() & DF != 0;
    let (_, clear, set) = alu_sub8(b, a, false);
    cpu.blit_flags(clear, set);
    cpu.register.si = if down {
        cpu.register.si.wrapping_sub(1)
    } else {
        cpu.register.si.wrapping_add(1)
    };
    cpu.register.di = if down {
        cpu.register.di.wrapping_sub(1)
    } else {
        cpu.register.di.wrapping_add(1)
    };
    if dec_cx {
        cpu.register.cx = cpu.register.cx.wrapping_sub(1);
    }
}

/// One word-wide compare step.
#[verifier::rlimit(60)]
#[verifier::spinoff_prover]
fn cmps16_one<M: Memory, P: Memory>(cpu: &mut CPU<M, P>, dec_cx: bool)
    ensures
        *final(cpu) == (CPU {
            register: cmps16_regs(
                old(cpu).memory,
                old(cpu).register,
                old(cpu).segment_selector,
                dec_cx,
            ),
            ..*old(cpu)
        }),
{
    let seg = cpu.get_segment_addr(None);
    let src = segment_phys(seg, cpu.register.si);
    let a = read_u16(&cpu.memory, src);
    let dst = segment_phys(cpu.register.es, cpu.register.di);
    let b = read_u16(&cpu.memory, dst);
    let down = cpu.get_flags() & DF != 0;
    let (_, clear, set) = alu_sub16(b, a, false);
    cpu.blit_flags(clear, set);
    cpu.register.si = if down {
        cpu.register.si.wrapping_sub(2)
    } else {
        cpu.register.si.wrapping_add(2)
    };
    cpu.register.di = if down {
        cpu.register.di.wrapping_sub(2)
    } else {
        cpu.register.di.wrapping_add(2)
    };
    if dec_cx {
        cpu.register.cx = cpu.register.cx.wrapping_sub(1);
    }
}

/// Execute a string compare, honouring a latched repeat prefix.
#[verifier::rlimit(100)]
#[verifier::spinoff_prover]
pub fn exec_cmps<M: Memory, P: Memory>(cpu: &mut CPU<M, P>, size: &OpSize)
    ensures
        cmps_effect(*old(cpu), *final(cpu), *size),
{
    let ghost pre = *cpu;
    let want_zf = match cpu.rep_selector {
        Some(rep) => Some(rep != OpNullaryOp::Repnz),
        None => None,
    };
    match size {
        OpSize::Byte => {
            match want_zf {
                None => {
                    cmps8_one(cpu, false);
                },
                Some(want) => {
                    let mut go = true;
                    while go && cpu.register.cx != 0
                        invariant
                            *cpu == (CPU { register: cpu.register, ..pre }),
                            go ==> rep_cmps8_regs(
                                pre.memory,
                                pre.register,
                                pre.segment_selector,
                                want,
                            ) == rep_cmps8_regs(
                                pre.memory,
                                cpu.register,
                                pre.segment_selector,
                                want,
                            ),
                            !go ==> rep_cmps8_regs(
                                pre.memory,
                                pre.register,
                                pre.segment_selector,
                                want,
                            ) == cpu.register,
                        decreases cpu.register.cx,
                    {
                        cmps8_one(cpu, true);
                        let zf_now = cpu.get_flags() & ZF != 0;
                        if zf_now != want {
                            go = false;
                        }
                    }
                },
            }
        },
        OpSize::Word => {
            match want_zf {
                None => {
                    cmps16_one(cpu, false);
                },
                Some(want) => {
                    let mut go = true;
                    while go && cpu.register.cx != 0
                        invariant
                            *cpu == (CPU { register: cpu.register, ..pre }),
                            go ==> rep_cmps16_regs(
                                pre.memory,
                                pre.register,
                                pre.segment_selector,
                                want,
                            ) == rep_cmps16_regs(
                                pre.memory,
                                cpu.register,
                                pre.segment_selector,
                                want,
                            ),
                            !go ==> rep_cmps16_regs(
                                pre.memory,
                                pre.register,
                                pre.segment_selector,
                                want,
                            ) == cpu.register,
                        decreases cpu.register.cx,
                    {
                        cmps16_one(cpu, true);
                        let zf_now = cpu.get_flags() & ZF != 0;
                        if zf_now != want {
                            go = false;
                        }
                    }
                },
            }
        },
    }
    cpu.segment_selector = None;
    cpu.rep_selector = None;
}

/// What a string scan does, mirroring the compare but against the
/// accumulator, walking only `DI`.
pub open spec fn scas_effect<M: Memory, P: Memory>(
    pre: CPU<M, P>,
    post: CPU<M, P>,
    size: OpSize,
) -> bool {
    let rfin = match pre.rep_selector {
        None => if size is Byte {
            scas8_regs(pre.memory, pre.register, false)
        } else {
            scas16_regs(pre.memory, pre.register, false)
        },
        Some(rep) => if size is Byte {
            rep_scas8_regs(pre.memory, pre.register, rep_want_zf(rep))
        } else {
            rep_scas16_regs(pre.memory, pre.register, rep_want_zf(rep))
        },
    };
    post == (CPU { register: rfin, segment_selector: None, rep_selector: None, ..pre })
}

/// One byte-wide scan step.
fn scas8_one<M: Memory, P: Memory>(cpu: &mut CPU<M, P>, dec_cx: bool)
    ensures
        *final(cpu) == (CPU {
            register: scas8_regs(old(cpu).memory, old(cpu).register, dec_cx),
            ..*old(cpu)
        }),
{
    let al = RegisterByteType::read_reg(&cpu.register, &RegisterByteType::Al);
    let dst = segment_phys(cpu.register.es, cpu.register.di);
    let b = crate::mem::read_u8(&cpu.memory, dst);
    let down = cpu.get_flags() & DF != 0;
    let (_, clear, set) = alu_sub8(b, al, false);
    cpu.blit_flags(clear, set);
    cpu.register.di = if down {
        cpu.register.di.wrapping_sub(1)
    } else {
        cpu.register.di.wrapping_add(1)
    };
    if dec_cx {
        cpu.register.cx = cpu.register.cx.wrapping_sub(1);
    }
}

/// One word-wide scan step.
fn scas16_one<M: Memory, P: Memory>(cpu: &mut CPU<M, P>, dec_cx: bool)
    ensures
        *final(cpu) == (CPU {
            register: scas16_regs(old(cpu).memory, old(cpu).register, dec_cx),
            ..*old(cpu)
        }),
{
    let ax = cpu.register.ax;
    let dst = segment_phys(cpu.register.es, cpu.register.di);
    let b = read_u16(&cpu.memory, dst);
    let down = cpu.get_flags() & DF != 0;
    let (_, clear, set) = alu_sub16(b, ax, false);
    cpu.blit_flags(clear, set);
    cpu.register.di = if down {
        cpu.register.di.wrapping_sub(2)
    } else {
        cpu.register.di.wrapping_add(2)
    };
    if dec_cx {
        cpu.register.cx = cpu.register.cx.wrapping_sub(1);
    }
}

/// Execute a string scan, honouring a latched repeat prefix.
#[verifier::rlimit(100)]
#[verifier::spinoff_prover]
pub fn exec_scas<M: Memory, P: Memory>(cpu: &mut CPU<M, P>, size: &OpSize)
    ensures
        scas_effect(*old(cpu), *final(cpu), *size),
{
    let ghost pre = *cpu;
    let want_zf = match cpu.rep_selector {
        Some(rep) => Some(rep != OpNullaryOp::Repnz),
        None => None,
    };
    match size {
        OpSize::Byte => {
            match want_zf {
                None => {
                    scas8_one(cpu, false);
                },
                Some(want) => {
                    let mut go = true;
                    while go && cpu.register.cx != 0
                        invariant
                            *cpu == (CPU { register: cpu.register, ..pre }),
                            go ==> rep_scas8_regs(pre.memory, pre.register, want) == rep_scas8_regs(
                                pre.memory,
                                cpu.register,
                                want,
                            ),
                            !go ==> rep_scas8_regs(pre.memory, pre.register, want) == cpu.register,
                        decreases cpu.register.cx,
                    {
                        scas8_one(cpu, true);
                        let zf_now = cpu.get_flags() & ZF != 0;
                        if zf_now != want {
                            go = false;
                        }
                    }
                },
            }
        },
        OpSize::Word => {
            match want_zf {
                None => {
                    scas16_one(cpu, false);
                },
                Some(want) => {
                    let mut go = true;
                    while go && cpu.register.cx != 0
                        invariant
                            *cpu == (CPU { register: cpu.register, ..pre }),
                            go ==> rep_scas16_regs(pre.memory, pre.register, want) == rep_scas16_regs(
                                pre.memory,
                                cpu.register,
                                want,
                            ),
                            !go ==> rep_scas16_regs(pre.memory, pre.register, want) == cpu.register,
                        decreases cpu.register.cx,
                    {
                        scas16_one(cpu, true);
                        let zf_now = cpu.get_flags() & ZF != 0;
                        if zf_now != want {
                            go = false;
                        }
                    }
                },
            }
        },
    }
    cpu.segment_selector = None;
    cpu.rep_selector = None;
}

/// A signed displacement moved up by two, wrapping as a 16-bit quantity:
/// how the second word of a far pointer operand is addressed.
pub open spec fn disp_wrap2(d: i16) -> i16 {
    if d + 2 <= 0x7fff {
        (d + 2) as i16
    } else {
        (d + 2 - 0x10000) as i16
    }
}

/// What a load-effective-address does: the named register takes the
/// operand's offset, before any segment is applied. A non-memory operand
/// does nothing.
pub open spec fn lea_effect<M: Memory, P: Memory>(
    pre: CPU<M, P>,
    post: CPU<M, P>,
    r: RegisterWordType,
    operand: OperandWord,
) -> bool {
    match operand {
        Operand::Address(at, disp) => post == clear_latches(
            CPU {
                register: with_word_reg(
                    pre.register,
                    r,
                    operand_offset(pre.register, at, disp),
                ),
                ..pre
            },
        ),
        Operand::Direct(off) => post == clear_latches(
            CPU { register: with_word_reg(pre.register, r, off), ..pre },
        ),
        _ => post == clear_latches(pre),
    }
}

/// Execute a load-effective-address.
pub fn exec_lea<M: Memory, P: Memory>(cpu: &mut CPU<M, P>, r: &RegisterWordType, operand: &OperandWord)
    ensures
        lea_effect(*old(cpu), *final(cpu), *r, *operand),
{
    match operand {
        Operand::Address(at, disp) => {
            let off = cpu.get_offset(at, *disp);
            RegisterWordType::write_reg(&mut cpu.register, r, off);
        },
        Operand::Direct(off) => {
            RegisterWordType::write_reg(&mut cpu.register, r, *off);
        },
        _ => (),
    }
    cpu.segment_selector = None;
    cpu.rep_selector = None;
}

/// What a far-pointer load does: the named register takes the word the
/// operand addresses, and the chosen segment register takes the word two
/// bytes past it. A non-memory operand does nothing.
pub open spec fn load_far_effect<M: Memory, P: Memory>(
    pre: CPU<M, P>,
    post: CPU<M, P>,
    r: RegisterWordType,
    operand: OperandWord,
    seg: RegisterWordType,
) -> bool {
    let reg = pre.register;
    let latch = pre.segment_selector;
    match operand {
        Operand::Address(at, disp) => post == clear_latches(
            CPU {
                register: with_word_reg(
                    with_word_reg(reg, r, word16_at(pre.memory, based_addr(reg, latch, at, disp))),
                    seg,
                    word16_at(pre.memory, based_addr(reg, latch, at, disp_wrap2(disp))),
                ),
                ..pre
            },
        ),
        Operand::Direct(off) => post == clear_latches(
            CPU {
                register: with_word_reg(
                    with_word_reg(reg, r, word16_at(pre.memory, direct_addr(reg, latch, off))),
                    seg,
                    word16_at(pre.memory, direct_addr(reg, latch, wadd(off, 2))),
                ),
                ..pre
            },
        ),
        _ => post == clear_latches(pre),
    }
}

/// Execute a far-pointer load into a register and `DS` or `ES`.
pub fn exec_load_far<M: Memory, P: Memory>(
    cpu: &mut CPU<M, P>,
    r: &RegisterWordType,
    operand: &OperandWord,
    seg: &RegisterWordType,
)
    ensures
        load_far_effect(*old(cpu), *final(cpu), *r, *operand, *seg),
{
    match operand {
        Operand::Address(at, disp) => {
            let sval = cpu.get_segment_addr(Some(at));
            let off1 = cpu.get_offset(at, *disp);
            let v1 = read_u16(&cpu.memory, segment_phys(sval, off1));
            let off2 = cpu.get_offset(at, disp.wrapping_add(2));
            let v2 = read_u16(&cpu.memory, segment_phys(sval, off2));
            RegisterWordType::write_reg(&mut cpu.register, r, v1);
            RegisterWordType::write_reg(&mut cpu.register, seg, v2);
        },
        Operand::Direct(off) => {
            let sval = cpu.get_segment_addr(None);
            let v1 = read_u16(&cpu.memory, segment_phys(sval, *off));
            let v2 = read_u16(&cpu.memory, segment_phys(sval, off.wrapping_add(2)));
            RegisterWordType::write_reg(&mut cpu.register, r, v1);
            RegisterWordType::write_reg(&mut cpu.register, seg, v2);
        },
        _ => (),
    }
    cpu.segment_selector = None;
    cpu.rep_selector = None;
}

/// What a port read does: the accumulator takes the byte or word the I/O
/// capability holds at the port.
pub open spec fn in_effect<M: Memory, P: Memory>(
    pre: CPU<M, P>,
    post: CPU<M, P>,
    size: OpSize,
    port: u16,
) -> bool {
    match size {
        OpSize::Byte => post == clear_latches(
            CPU {
                register: Register {
                    ax: (pre.register.ax & 0xff00) | (byte_at(pre.io_ports, port as int) as u16),
                    ..pre.register
                },
                ..pre
            },
        ),
        OpSize::Word => post == clear_latches(
            CPU {
                register: Register { ax: word16_at(pre.io_ports, port as int), ..pre.register },
                ..pre
            },
        ),
    }
}

/// What a port write does: the accumulator's byte or word lands at the
/// port, where the I/O capability accepts writes.
pub open spec fn out_effect<M: Memory, P: Memory>(
    pre: CPU<M, P>,
    post: CPU<M, P>,
    size: OpSize,
    port: u16,
) -> bool {
    &&& post == (CPU {
        io_ports: post.io_ports,
        segment_selector: None,
        rep_selector: None,
        ..pre
    })
    &&& match size {
        OpSize::Byte => mem_wrote(
            pre.io_ports,
            post.io_ports,
            port as int,
            seq![byte_reg(pre.register, RegisterByteType::Al)],
        ),
        OpSize::Word => mem_wrote(pre.io_ports, post.io_ports, port as int, word_bytes(pre.register.ax)),
    }
}

/// Execute a port read into the accumulator.
pub fn exec_in<M: Memory, P: Memory>(cpu: &mut CPU<M, P>, size: &OpSize, port: u16)
    ensures
        in_effect(*old(cpu), *final(cpu), *size, port),
{
    match size {
        OpSize::Byte => {
            let v = crate::mem::read_u8(&cpu.io_ports, port as usize);
            RegisterByteType::write_reg(&mut cpu.register, &RegisterByteType::Al, v);
        },
        OpSize::Word => {
            let v = read_u16(&cpu.io_ports, port as usize);
            cpu.register.ax = v;
        },
    }
    cpu.segment_selector = None;
    cpu.rep_selector = None;
}

/// Execute a port write from the accumulator.
pub fn exec_out<M: Memory, P: Memory>(cpu: &mut CPU<M, P>, size: &OpSize, port: u16)
    ensures
        out_effect(*old(cpu), *final(cpu), *size, port),
{
    match size {
        OpSize::Byte => {
            let v = RegisterByteType::read_reg(&cpu.register, &RegisterByteType::Al);
            crate::mem::write_u8(&mut cpu.io_ports, port as usize, v);
        },
        OpSize::Word => {
            let v = cpu.register.ax;
            write_u16(&mut cpu.io_ports, port as usize, v);
        },
    }
    cpu.segment_selector = None;
    cpu.rep_selector = None;
}

/// What a call does: the return far or near address pushed, then the new
/// target loaded; an indirect target is read after the pushes, so a target
/// on the stack sees them.
pub open spec fn call_effect<M: Memory, P: Memory>(
    pre: CPU<M, P>,
    post: CPU<M, P>,
    ct: OpCallType,
) -> bool {
    let reg = pre.register;
    match ct {
        OpCallType::WithinDirect(off) => exists|m: CPU<M, P>|
            #[trigger] pushed(pre, m, reg.ip) && post == clear_latches(
                CPU { register: Register { ip: wadd(reg.ip, off as int), ..m.register }, ..m },
            ),
        OpCallType::WithinIndirect(operand) => exists|m: CPU<M, P>|
            #[trigger] pushed(pre, m, reg.ip) && post == clear_latches(
                CPU {
                    register: Register {
                        ip: operand_word_val(m.memory, m.register, m.segment_selector, operand),
                        ..m.register
                    },
                    ..m
                },
            ),
        OpCallType::InterDirect(off, seg) => exists|m1: CPU<M, P>, m2: CPU<M, P>|
            {
                &&& #[trigger] pushed(pre, m1, reg.cs)
                &&& #[trigger] pushed(m1, m2, reg.ip)
                &&& post == clear_latches(
                    CPU { register: Register { ip: off, cs: seg, ..m2.register }, ..m2 },
                )
            },
        OpCallType::InterIndirect(operand) => match operand {
            Operand::Address(at, disp) => exists|m1: CPU<M, P>, m2: CPU<M, P>|
                {
                    &&& #[trigger] pushed(pre, m1, reg.cs)
                    &&& #[trigger] pushed(m1, m2, reg.ip)
                    &&& post == clear_latches(
                        CPU {
                            register: Register {
                                ip: operand_word_val(
                                    m2.memory,
                                    m2.register,
                                    m2.segment_selector,
                                    Operand::Address(at, disp),
                                ),
                                cs: operand_word_val(
                                    m2.memory,
                                    m2.register,
                                    m2.segment_selector,
                                    Operand::Address(at, disp_wrap2(disp)),
                                ),
                                ..m2.register
                            },
                            ..m2
                        },
                    )
                },
            Operand::Direct(off) => exists|m1: CPU<M, P>, m2: CPU<M, P>|
                {
                    &&& #[trigger] pushed(pre, m1, reg.cs)
                    &&& #[trigger] pushed(m1, m2, reg.ip)
                    &&& post == clear_latches(
                        CPU {
                            register: Register {
                                ip: operand_word_val(
                                    m2.memory,
                                    m2.register,
                                    m2.segment_selector,
                                    Operand::Direct(off),
                                ),
                                cs: operand_word_val(
                                    m2.memory,
                                    m2.register,
                                    m2.segment_selector,
                                    Operand::Direct(wadd(off, 2)),
                                ),
                                ..m2.register
                            },
                            ..m2
                        },
                    )
                },
            _ => post == clear_latches(pre),
        },
    }
}

/// Execute a call.
#[verifier::rlimit(100)]
#[verifier::spinoff_prover]
pub fn exec_call<M: Memory, P: Memory>(cpu: &mut CPU<M, P>, call_type: &OpCallType)
    ensures
        call_effect(*old(cpu), *final(cpu), *call_type),
{
    match call_type {
        OpCallType::WithinDirect(addr) => {
            let ip = cpu.register.ip;
            push_val(cpu, ip);
            let new_ip = ip.wrapping_add(*addr);
            proof {
                crate::mem::lemma_wrap_ops_u16();
            }
            cpu.register.ip = new_ip;
        },
        OpCallType::WithinIndirect(operand) => {
            let ip = cpu.register.ip;
            push_val(cpu, ip);
            let value: u16 = cpu.get_operand(operand);
            cpu.register.ip = value;
        },
        OpCallType::InterDirect(off, seg) => {
            let old_cs = cpu.register.cs;
            push_val(cpu, old_cs);
            let old_ip = cpu.register.ip;
            push_val(cpu, old_ip);
            cpu.register.ip = *off;
            cpu.register.cs = *seg;
        },
        OpCallType::InterIndirect(operand) => {
            match operand {
                Operand::Address(at, off) => {
                    let old_cs = cpu.register.cs;
                    push_val(cpu, old_cs);
                    let old_ip = cpu.register.ip;
                    push_val(cpu, old_ip);
                    let ip: u16 = cpu.get_operand(operand);
                    let cs: u16 = cpu.get_operand(&Operand::Address(*at, off.wrapping_add(2)));
                    cpu.register.ip = ip;
                    cpu.register.cs = cs;
                },
                Operand::Direct(addr) => {
                    let old_cs = cpu.register.cs;
                    push_val(cpu, old_cs);
                    let old_ip = cpu.register.ip;
                    push_val(cpu, old_ip);
                    let ip: u16 = cpu.get_operand(operand);
                    let cs: u16 = cpu.get_operand(&Operand::Direct(addr.wrapping_add(2)));
                    cpu.register.ip = ip;
                    cpu.register.cs = cs;
                },
                _ => (),
            }
        },
    }
    cpu.segment_selector = None;
    cpu.rep_selector = None;
}

/// What a jump does: a call without the pushes.
pub open spec fn jmp_effect<M: Memory, P: Memory>(
    pre: CPU<M, P>,
    post: CPU<M, P>,
    ct: OpCallType,
) -> bool {
    let reg = pre.register;
    let latch = pre.segment_selector;
    match ct {
        OpCallType::WithinDirect(off) => post == clear_latches(
            CPU { register: Register { ip: wadd(reg.ip, off as int), ..reg }, ..pre },
        ),
        OpCallType::WithinIndirect(operand) => post == clear_latches(
            CPU {
                register: Register {
                    ip: operand_word_val(pre.memory, reg, latch, operand),
                    ..reg
                },
                ..pre
            },
        ),
        OpCallType::InterDirect(off, seg) => post == clear_latches(
            CPU { register: Register { ip: off, cs: seg, ..reg }, ..pre },
        ),
        OpCallType::InterIndirect(operand) => match operand {
            Operand::Address(at, disp) => post == clear_latches(
                CPU {
                    register: Register {
                        ip: operand_word_val(pre.memory, reg, latch, Operand::Address(at, disp)),
                        cs: operand_word_val(
                            pre.memory,
                            reg,
                            latch,
                            Operand::Address(at, disp_wrap2(disp)),
                        ),
                        ..reg
                    },
                    ..pre
                },
            ),
            Operand::Direct(off) => post == clear_latches(
                CPU {
                    register: Register {
                        ip: operand_word_val(pre.memory, reg, latch, Operand::Direct(off)),
                        cs: operand_word_val(pre.memory, reg, latch, Operand::Direct(wadd(off, 2))),
                        ..reg
                    },
                    ..pre
                },
            ),
            _ => post == clear_latches(pre),
        },
    }
}

/// Execute a jump.
pub fn exec_jmp<M: Memory, P: Memory>(cpu: &mut CPU<M, P>, call_type: &OpCallType)
    ensures
        jmp_effect(*old(cpu), *final(cpu), *call_type),
{
    match call_type {
        OpCallType::WithinDirect(addr) => {
            let ip = cpu.register.ip;
            let new_ip = ip.wrapping_add(*addr);
            proof {
                crate::mem::lemma_wrap_ops_u16();
            }
            cpu.register.ip = new_ip;
        },
        OpCallType::WithinIndirect(operand) => {
            let value: u16 = cpu.get_operand(operand);
            cpu.register.ip = value;
        },
        OpCallType::InterDirect(off, seg) => {
            cpu.register.ip = *off;
            cpu.register.cs = *seg;
        },
        OpCallType::InterIndirect(operand) => {
            match operand {
                Operand::Address(at, off) => {
                    let ip: u16 = cpu.get_operand(operand);
                    let cs: u16 = cpu.get_operand(&Operand::Address(*at, off.wrapping_add(2)));
                    cpu.register.ip = ip;
                    cpu.register.cs = cs;
                },
                Operand::Direct(addr) => {
                    let ip: u16 = cpu.get_operand(operand);
                    let cs: u16 = cpu.get_operand(&Operand::Direct(addr.wrapping_add(2)));
                    cpu.register.ip = ip;
                    cpu.register.cs = cs;
                },
                _ => (),
            }
        },
    }
    cpu.segment_selector = None;
    cpu.rep_selector = None;
}

/// What a return does: `IP` (and `CS`, for a far return) popped, then the
/// stack pointer lifted by the immediate.
pub open spec fn ret_effect<M: Memory, P: Memory>(
    pre: CPU<M, P>,
    post: CPU<M, P>,
    far: bool,
    extra: u16,
) -> bool {
    let reg = pre.register;
    if far {
        post == clear_latches(
            CPU {
                register: Register {
                    ip: word16_at(pre.memory, phys(reg.ss, reg.sp)),
                    cs: word16_at(pre.memory, phys(reg.ss, wadd(reg.sp, 2))),
                    sp: wadd(wadd(reg.sp, 4), extra as int),
                    ..reg
                },
                ..pre
            },
        )
    } else {
        post == clear_latches(
            CPU {
                register: Register {
                    ip: word16_at(pre.memory, phys(reg.ss, reg.sp)),
                    sp: wadd(wadd(reg.sp, 2), extra as int),
                    ..reg
                },
                ..pre
            },
        )
    }
}

/// Execute a near or far return.
pub fn exec_ret<M: Memory, P: Memory>(cpu: &mut CPU<M, P>, far: bool, extra: u16)
    ensures
        ret_effect(*old(cpu), *final(cpu), far, extra),
{
    proof {
        lemma_sp_steps(cpu.register.sp);
    }
    let ip = pop_val(cpu);
    cpu.register.ip = ip;
    if far {
        let cs = pop_val(cpu);
        cpu.register.cs = cs;
    }
    let sp1 = cpu.register.sp;
    let sp2 = sp1.wrapping_add(extra);
    proof {
        crate::mem::lemma_wrap_ops_u16();
    }
    cpu.register.sp = sp2;
    cpu.segment_selector = None;
    cpu.rep_selector = None;
}

/// What one instruction does to the processor: the family effect of its
/// kind. The segment prefix latches the override and leaves the repeat
/// latch untouched; a repeat prefix latches itself and, like every
/// non-prefix instruction, consumes any pending segment override; every
/// other instruction consumes both latches.
pub open spec fn exec_effect<M: Memory, P: Memory>(pre: CPU<M, P>, post: CPU<M, P>, op: Op) -> bool {
    match op {
        Op::BinaryByte { op, src, dest } => binary_byte_effect(pre, post, op, src, dest),
        Op::BinaryWord { op, src, dest } => binary_word_effect(pre, post, op, src, dest),
        Op::UnaryByte { op, dest } => unary_byte_effect(pre, post, op, dest),
        Op::UnaryWord { op, dest } => unary_word_effect(pre, post, op, dest),
        Op::ShiftByte { op, shift_type, dest } => shift_byte_effect(pre, post, op, shift_type, dest),
        Op::ShiftWord { op, shift_type, dest } => shift_word_effect(pre, post, op, shift_type, dest),
        Op::Nullary(op) => nullary_effect(pre, post, op),
        Op::CondJmp { op, offset } => cond_jmp_effect(pre, post, op, offset),
        Op::InFixed(size) => in_effect(pre, post, size, pre.register.dx),
        Op::InVariable(size, port) => in_effect(pre, post, size, port as u16),
        Op::OutFixed(size) => out_effect(pre, post, size, pre.register.dx),
        Op::OutVariable(size, port) => out_effect(pre, post, size, port as u16),
        Op::Lea(r, operand) => lea_effect(pre, post, r, operand),
        Op::Lds(r, operand) => load_far_effect(pre, post, r, operand, RegisterWordType::Ds),
        Op::Les(r, operand) => load_far_effect(pre, post, r, operand, RegisterWordType::Es),
        Op::Movs(size) => movs_effect(pre, post, size),
        Op::Cmps(size) => cmps_effect(pre, post, size),
        Op::Scas(size) => scas_effect(pre, post, size),
        Op::Lods(size) => lods_effect(pre, post, size),
        Op::Stos(size) => stos_effect(pre, post, size),
        Op::Call(ct) => call_effect(pre, post, ct),
        Op::Jmp(ct) => jmp_effect(pre, post, ct),
        Op::RetWithin => ret_effect(pre, post, false, 0),
        Op::RetWithinImm(k) => ret_effect(pre, post, false, k),
        Op::RetInter => ret_effect(pre, post, true, 0),
        Op::RetInterImm(k) => ret_effect(pre, post, true, k),
        Op::Int(n) => int_effect(pre, post, n),
        Op::Esc(_, _) => post == clear_latches(pre),
        Op::Segment(seg) => post == (CPU { segment_selector: Some(seg), ..pre }),
    }
}

impl<M: Memory, P: Memory> CPU<M, P> {
    /// Execute one decoded instruction against the processor state.
    pub fn exec_op(&mut self, op: &Op)
        ensures
            exec_effect(*old(self), *final(self), *op),
    {
        match op {
            Op::BinaryByte { op, src, dest } => {
                exec_binary_byte(self, op, src, dest);
            },
            Op::BinaryWord { op, src, dest } => {
                exec_binary_word(self, op, src, dest);
            },
            Op::UnaryByte { op, dest } => {
                exec_unary_byte(self, op, dest);
            },
            Op::UnaryWord { op, dest } => {
                exec_unary_word(self, op, dest);
            },
            Op::ShiftByte { op, shift_type, dest } => {
                exec_shift_byte(self, op, shift_type, dest);
            },
            Op::ShiftWord { op, shift_type, dest } => {
                exec_shift_word(self, op, shift_type, dest);
            },
            Op::Nullary(op) => {
                exec_nullary(self, op);
            },
            Op::CondJmp { op, offset } => {
                exec_cond_jmp(self, op, *offset);
            },
            Op::InFixed(size) => {
                let port = self.register.dx;
                exec_in(self, size, port);
            },
            Op::InVariable(size, port) => {
                let port = *port as u16;
                exec_in(self, size, port);
            },
            Op::OutFixed(size) => {
                let port = self.register.dx;
                exec_out(self, size, port);
            },
            Op::OutVariable(size, port) => {
                let port = *port as u16;
                exec_out(self, size, port);
            },
            Op::Lea(r, operand) => {
                exec_lea(self, r, operand);
            },
            Op::Lds(r, operand) => {
                exec_load_far(self, r, operand, &RegisterWordType::Ds);
            },
            Op::Les(r, operand) => {
                exec_load_far(self, r, operand, &RegisterWordType::Es);
            },
            Op::Movs(size) => {
                exec_movs(self, size);
            },
            Op::Cmps(size) => {
                exec_cmps(self, size);
            },
            Op::Scas(size) => {
                exec_scas(self, size);
            },
            Op::Lods(size) => {
                exec_lods(self, size);
            },
            Op::Stos(size) => {
                exec_stos(self, size);
            },
            Op::Call(call_type) => {
                exec_call(self, call_type);
            },
            Op::Jmp(call_type) => {
                exec_jmp(self, call_type);
            },
            Op::RetWithin => {
                exec_ret(self, false, 0);
            },
            Op::RetWithinImm(value) => {
                exec_ret(self, false, *value);
            },
            Op::RetInter => {
                exec_ret(self, true, 0);
            },
            Op::RetInterImm(value) => {
                exec_ret(self, true, *value);
            },
            Op::Int(value) => {
                exec_int(self, *value);
            },
            Op::Esc(_, _) => {
                self.segment_selector = None;
                self.rep_selector = None;
            },
            Op::Segment(seg) => {
                self.segment_selector = Some(*seg);
            },
        }
    }
}

/// Stack duality: a push followed by a pop leaves the stack pointer where
/// it was, and the pop reads back the pushed word, provided the stack slot
/// is backed by writable memory.
#[verifier::rlimit(60)]
#[verifier::spinoff_prover]
pub proof fn lemma_stack_duality<M: Memory, P: Memory>(
    c0: CPU<M, P>,
    c1: CPU<M, P>,
    c2: CPU<M, P>,
    v: u16,
)
    requires
        pushed(c0, c1, v),
        popped(c1, c2),
        byte_writable(c0.memory, phys(c0.register.ss, wsub(c0.register.sp, 2))),
        byte_writable(c0.memory, phys(c0.register.ss, wsub(c0.register.sp, 2)) + 1),
    ensures
        c2.register.sp == c0.register.sp,
        stack_top(c1) == v,
{
    let sp = c0.register.sp;
    assert(((sp - 2) % 0x10000 + 2) % 0x10000 == (sp as int) % 0x10000) by (nonlinear_arith);
    assert((sp as int) % 0x10000 == sp) by (nonlinear_arith);
    let a = phys(c0.register.ss, wsub(sp, 2));
    crate::mem::lemma_mem_wrote_word(c0.memory, c1.memory, a, v);
}

/// Stepping an offset inside a segment window that does not cross the
/// 20-bit boundary is plain address arithmetic.
proof fn lemma_phys_step(seg: u16, off: u16, i: int)
    requires
        0 <= i,
        off + i <= 0xffff,
        phys(seg, off) + i < 0x100000,
    ensures
        phys(seg, (off + i) as u16) == phys(seg, off) + i,
{
    let val = seg * 16 + off;
    if val < 0x100000 {
        assert(val % 0x100000 == val) by (nonlinear_arith)
            requires
                0 <= val < 0x100000,
        ;
        assert((val + i) % 0x100000 == val + i) by (nonlinear_arith)
            requires
                0 <= val + i < 0x100000,
        ;
    } else {
        assert(val % 0x100000 == val - 0x100000) by (nonlinear_arith)
            requires
                0x100000 <= val < 0x200000,
        ;
        assert((val + i) % 0x100000 == val + i - 0x100000) by (nonlinear_arith)
            requires
                0x100000 <= val + i < 0x200000,
        ;
    }
}

/// Under an upward direction flag and no offset wrap, the iterated string
/// registers take the closed form: both pointers up by the step count, the
/// counter down by it.
proof fn lemma_movs_regs_ascending(r: Register, n: int, i: int)
    requires
        r.flags & DF == 0,
        0 <= i <= n,
        n <= r.cx,
        r.si + n <= 0xffff,
        r.di + n <= 0xffff,
    ensures
        movs_regs_n(r, 1, true, i as nat) == (Register {
            si: (r.si + i) as u16,
            di: (r.di + i) as u16,
            cx: (r.cx - i) as u16,
            ..r
        }),
    decreases i,
{
    if i == 0 {
        assert(movs_regs_n(r, 1, true, 0) == r);
    } else {
        lemma_movs_regs_ascending(r, n, i - 1);
        lemma_movs_regs_n_unfold(r, 1, true, (i - 1) as nat);
        let prev = movs_regs_n(r, 1, true, (i - 1) as nat);
        assert(((r.si + i - 1) + 1) % 0x10000 == r.si + i) by (nonlinear_arith)
            requires
                0 <= r.si + i <= 0xffff,
        ;
        assert(((r.di + i - 1) + 1) % 0x10000 == r.di + i) by (nonlinear_arith)
            requires
                0 <= r.di + i <= 0xffff,
        ;
        assert(((r.cx - i + 1) - 1) % 0x10000 == r.cx - i) by (nonlinear_arith)
            requires
                0 <= r.cx - i <= 0xffff,
        ;
    }
}

/// After `i` steps of an upward, non-overlapping byte copy, the first `i`
/// destination bytes hold the source bytes, nothing else has moved, and
/// writability is as it was.
proof fn lemma_movs8_run_copy<M: Memory>(ms: Seq<M>, r0: Register, n: int, i: int)
    requires
        movs8_run(ms, r0, None, true),
        ms.len() == n + 1,
        0 <= i <= n,
        n <= r0.cx,
        r0.flags & DF == 0,
        r0.si + n <= 0xffff,
        r0.di + n <= 0xffff,
        phys(r0.ds, r0.si) + n <= 0x100000,
        phys(r0.es, r0.di) + n <= 0x100000,
        phys(r0.ds, r0.si) + n <= phys(r0.es, r0.di) || phys(r0.es, r0.di) + n <= phys(
            r0.ds,
            r0.si,
        ),
    ensures
        forall|k: int|
            0 <= k < i ==> #[trigger] byte_at(ms[i], phys(r0.es, r0.di) + k) == if byte_writable(
                ms[0],
                phys(r0.es, r0.di) + k,
            ) {
                byte_at(ms[0], phys(r0.ds, r0.si) + k)
            } else {
                byte_at(ms[0], phys(r0.es, r0.di) + k)
            },
        forall|a: int|
            a < phys(r0.es, r0.di) || a >= phys(r0.es, r0.di) + i ==> #[trigger] byte_at(
                ms[i],
                a,
            ) == byte_at(ms[0], a),
        forall|a: int| #[trigger] byte_writable(ms[i], a) == byte_writable(ms[0], a),
    decreases i,
{
    let src = phys(r0.ds, r0.si);
    let dst = phys(r0.es, r0.di);
    if i > 0 {
        lemma_movs8_run_copy(ms, r0, n, i - 1);
        lemma_movs_regs_ascending(r0, n, i - 1);
        lemma_phys_step(r0.ds, r0.si, i - 1);
        lemma_phys_step(r0.es, r0.di, i - 1);
        let ri = movs_regs_n(r0, 1, true, (i - 1) as nat);
        assert(operand_seg(ri, None, None) == r0.ds);
        assert(str_src_addr(ri, None) == src + (i - 1));
        assert(str_dst_addr(ri) == dst + (i - 1));
        let j = i - 1;
        assert(mem_wrote(
            ms[j],
            ms[j + 1],
            str_dst_addr(movs_regs_n(r0, 1, true, j as nat)),
            seq![byte_at(ms[j], str_src_addr(movs_regs_n(r0, 1, true, j as nat), None))],
        ));
        assert(ms[j] == ms[i - 1] && ms[j + 1] == ms[i]);
        assert(mem_wrote(
            ms[i - 1],
            ms[i],
            dst + (i - 1),
            seq![byte_at(ms[i - 1], src + (i - 1))],
        ));
        assert forall|a: int| #[trigger] byte_writable(ms[i], a) == byte_writable(
            ms[0],
            a,
        ) by {
            crate::mem::lemma_mem_wrote_byte(
                ms[i - 1],
                ms[i],
                dst + (i - 1),
                seq![byte_at(ms[i - 1], src + (i - 1))],
                a,
            );
        }
        assert forall|a: int|
            a < dst || a >= dst + i implies #[trigger] byte_at(ms[i], a) == byte_at(
                ms[0],
                a,
            ) by {
            crate::mem::lemma_mem_wrote_byte(
                ms[i - 1],
                ms[i],
                dst + (i - 1),
                seq![byte_at(ms[i - 1], src + (i - 1))],
                a,
            );
        }
        assert forall|k: int|
            0 <= k < i implies #[trigger] byte_at(ms[i], dst + k) == if byte_writable(
                ms[0],
                dst + k,
            ) {
                byte_at(ms[0], src + k)
            } else {
                byte_at(ms[0], dst + k)
            } by {
            crate::mem::lemma_mem_wrote_byte(
                ms[i - 1],
                ms[i],
                dst + (i - 1),
                seq![byte_at(ms[i - 1], src + (i - 1))],
                dst + k,
            );
            if k == i - 1 {
                assert(byte_at(ms[i - 1], src + (i - 1)) == byte_at(ms[0], src + (i - 1)));
            } else {
                assert(byte_at(ms[i], dst + k) == byte_at(ms[i - 1], dst + k));
            }
        }
    }
}

/// String direction: with the direction flag clear and a repeat prefix
/// over `CX = n` elements, a byte-wide string move leaves both pointers
/// `n` higher, the counter at zero, and the destination bytes equal to the
/// source bytes, provided neither range wraps, the two physical ranges are
/// disjoint, and the destination is writable.
pub proof fn lemma_string_direction<M: Memory, P: Memory>(pre: CPU<M, P>, post: CPU<M, P>, n: u16)
    requires
        movs_effect(pre, post, OpSize::Byte),
        pre.rep_selector is Some,
        pre.segment_selector is None,
        pre.register.cx == n,
        pre.register.flags & DF == 0,
        pre.register.si + n <= 0xffff,
        pre.register.di + n <= 0xffff,
        phys(pre.register.ds, pre.register.si) + n <= 0x100000,
        phys(pre.register.es, pre.register.di) + n <= 0x100000,
        phys(pre.register.ds, pre.register.si) + n <= phys(pre.register.es, pre.register.di)
            || phys(pre.register.es, pre.register.di) + n <= phys(
            pre.register.ds,
            pre.register.si,
        ),
        forall|a: int|
            phys(pre.register.es, pre.register.di) <= a < phys(pre.register.es, pre.register.di)
                + n ==> #[trigger] byte_writable(pre.memory, a),
    ensures
        post.register.si == pre.register.si + n,
        post.register.di == pre.register.di + n,
        post.register.cx == 0,
        forall|k: int|
            0 <= k < n ==> #[trigger] byte_at(post.memory, phys(pre.register.es, pre.register.di)
                + k) == byte_at(pre.memory, phys(pre.register.ds, pre.register.si) + k),
{
    let r0 = pre.register;
    lemma_movs_regs_ascending(r0, n as int, n as int);
    let ms = choose|ms: Seq<M>|
        #![trigger movs8_run(ms, pre.register, pre.segment_selector, true)]
        #![trigger movs16_run(ms, pre.register, pre.segment_selector, true)]
        {
            &&& ms.len() == n + 1
            &&& ms[0] == pre.memory
            &&& ms[n as int] == post.memory
            &&& movs8_run(ms, pre.register, pre.segment_selector, true)
        };
    lemma_movs8_run_copy(ms, r0, n as int, n as int);
}

} // verus!
