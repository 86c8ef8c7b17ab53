//! The register file: fourteen 16-bit cells. The four general-purpose words
//! `AX, BX, CX, DX` each alias a low and a high byte; writing one byte half
//! preserves the other, and reading the word observes both halves.

use vstd::prelude::*;

verus! {

/// The architectural register state.
#[derive(Clone, Copy)]
pub struct Register {
    pub ax: u16,
    pub bx: u16,
    pub cx: u16,
    pub dx: u16,
    pub ip: u16,
    pub sp: u16,
    pub bp: u16,
    pub si: u16,
    pub di: u16,
    pub cs: u16,
    pub ss: u16,
    pub ds: u16,
    pub es: u16,
    pub flags: u16,
}

/// The boot state of the register file: everything zero except `CS`, so
/// that the first fetch happens at physical `0xFFFF0`.
pub open spec fn initial_register() -> Register {
    Register {
        ax: 0,
        bx: 0,
        cx: 0,
        dx: 0,
        ip: 0,
        sp: 0,
        bp: 0,
        si: 0,
        di: 0,
        cs: 0xffff,
        ss: 0,
        ds: 0,
        es: 0,
        flags: 0,
    }
}

impl Register {
    /// The boot state: everything zero except `CS`, so that the first fetch
    /// happens at physical `0xFFFF0`.
    pub fn new() -> (r: Register)
        ensures
            r == initial_register(),
    {
        Register {
            ax: 0,
            bx: 0,
            cx: 0,
            dx: 0,
            ip: 0,
            sp: 0,
            bp: 0,
            si: 0,
            di: 0,
            cs: 0xffff,
            ss: 0,
            ds: 0,
            es: 0,
            flags: 0,
        }
    }
}

/// The word-sized register names: general-purpose, index/pointer and
/// segment registers.
#[derive(PartialEq, Eq, Structural, Copy, Clone, Debug)]
pub enum RegisterWordType {
    Ax,
    Cx,
    Dx,
    Bx,
    Sp,
    Bp,
    Si,
    Di,
    Es,
    Cs,
    Ss,
    Ds,
}

/// The byte-sized register names: the low and high halves of the four
/// general-purpose words.
#[derive(PartialEq, Eq, Structural, Copy, Clone, Debug)]
pub enum RegisterByteType {
    Al,
    Cl,
    Dl,
    Bl,
    Ah,
    Ch,
    Dh,
    Bh,
}

/// The word a register name selects.
pub open spec fn word_reg(store: Register, register: RegisterWordType) -> u16 {
    match register {
        RegisterWordType::Ax => store.ax,
        RegisterWordType::Cx => store.cx,
        RegisterWordType::Dx => store.dx,
        RegisterWordType::Bx => store.bx,
        RegisterWordType::Sp => store.sp,
        RegisterWordType::Bp => store.bp,
        RegisterWordType::Si => store.si,
        RegisterWordType::Di => store.di,
        RegisterWordType::Es => store.es,
        RegisterWordType::Cs => store.cs,
        RegisterWordType::Ss => store.ss,
        RegisterWordType::Ds => store.ds,
    }
}

/// The register file after writing a word register.
pub open spec fn with_word_reg(store: Register, register: RegisterWordType, value: u16) -> Register {
    match register {
        RegisterWordType::Ax => Register { ax: value, ..store },
        RegisterWordType::Cx => Register { cx: value, ..store },
        RegisterWordType::Dx => Register { dx: value, ..store },
        RegisterWordType::Bx => Register { bx: value, ..store },
        RegisterWordType::Sp => Register { sp: value, ..store },
        RegisterWordType::Bp => Register { bp: value, ..store },
        RegisterWordType::Si => Register { si: value, ..store },
        RegisterWordType::Di => Register { di: value, ..store },
        RegisterWordType::Es => Register { es: value, ..store },
        RegisterWordType::Cs => Register { cs: value, ..store },
        RegisterWordType::Ss => Register { ss: value, ..store },
        RegisterWordType::Ds => Register { ds: value, ..store },
    }
}

/// The byte half a register name selects.
pub open spec fn byte_reg(store: Register, register: RegisterByteType) -> u8 {
    match register {
        RegisterByteType::Al => (store.ax & 0xff) as u8,
        RegisterByteType::Cl => (store.cx & 0xff) as u8,
        RegisterByteType::Dl => (store.dx & 0xff) as u8,
        RegisterByteType::Bl => (store.bx & 0xff) as u8,
        RegisterByteType::Ah => ((store.ax >> 8) & 0xff) as u8,
        RegisterByteType::Ch => ((store.cx >> 8) & 0xff) as u8,
        RegisterByteType::Dh => ((store.dx >> 8) & 0xff) as u8,
        RegisterByteType::Bh => ((store.bx >> 8) & 0xff) as u8,
    }
}

/// The register file after writing a byte half: the other half of the
/// aliased word is preserved.
pub open spec fn with_byte_reg(store: Register, register: RegisterByteType, value: u8) -> Register {
    match register {
        RegisterByteType::Al => Register { ax: (store.ax & 0xff00) | (value as u16), ..store },
        RegisterByteType::Cl => Register { cx: (store.cx & 0xff00) | (value as u16), ..store },
        RegisterByteType::Dl => Register { dx: (store.dx & 0xff00) | (value as u16), ..store },
        RegisterByteType::Bl => Register { bx: (store.bx & 0xff00) | (value as u16), ..store },
        RegisterByteType::Ah => Register {
            ax: (store.ax & 0x00ff) | ((value as u16) << 8),
            ..store
        },
        RegisterByteType::Ch => Register {
            cx: (store.cx & 0x00ff) | ((value as u16) << 8),
            ..store
        },
        RegisterByteType::Dh => Register {
            dx: (store.dx & 0x00ff) | ((value as u16) << 8),
            ..store
        },
        RegisterByteType::Bh => Register {
            bx: (store.bx & 0x00ff) | ((value as u16) << 8),
            ..store
        },
    }
}

/// A register name of some width: typed read and write access against the
/// register file.
pub trait RegisterType: Sized {
    /// The width of the registers this name kind selects.
    type Value;

    /// The value a name selects.
    spec fn read_spec(store: Register, register: Self) -> Self::Value;

    /// The register file after writing through a name.
    spec fn write_spec(store: Register, register: Self, value: Self::Value) -> Register;

    /// Read the named register.
    fn read_reg(store: &Register, register: &Self) -> (r: Self::Value)
        ensures
            r == Self::read_spec(*store, *register),
    ;

    /// Write the named register.
    fn write_reg(store: &mut Register, register: &Self, value: Self::Value)
        ensures
            *final(store) == Self::write_spec(*old(store), *register, value),
    ;
}

impl RegisterType for RegisterWordType {
    type Value = u16;

    open spec fn read_spec(store: Register, register: Self) -> u16 {
        word_reg(store, register)
    }

    open spec fn write_spec(store: Register, register: Self, value: u16) -> Register {
        with_word_reg(store, register, value)
    }

    fn read_reg(store: &Register, register: &Self) -> (r: u16) {
        match register {
            RegisterWordType::Ax => store.ax,
            RegisterWordType::Cx => store.cx,
            RegisterWordType::Dx => store.dx,
            RegisterWordType::Bx => store.bx,
            RegisterWordType::Sp => store.sp,
            RegisterWordType::Bp => store.bp,
            RegisterWordType::Si => store.si,
            RegisterWordType::Di => store.di,
            RegisterWordType::Es => store.es,
            RegisterWordType::Cs => store.cs,
            RegisterWordType::Ss => store.ss,
            RegisterWordType::Ds => store.ds,
        }
    }

    fn write_reg(store: &mut Register, register: &Self, value: u16) {
        match register {
            RegisterWordType::Ax => store.ax = value,
            RegisterWordType::Cx => store.cx = value,
            RegisterWordType::Dx => store.dx = value,
            RegisterWordType::Bx => store.bx = value,
            RegisterWordType::Sp => store.sp = value,
            RegisterWordType::Bp => store.bp = value,
            RegisterWordType::Si => store.si = value,
            RegisterWordType::Di => store.di = value,
            RegisterWordType::Es => store.es = value,
            RegisterWordType::Cs => store.cs = value,
            RegisterWordType::Ss => store.ss = value,
            RegisterWordType::Ds => store.ds = value,
        }
    }
}

impl RegisterType for RegisterByteType {
    type Value = u8;

    open spec fn read_spec(store: Register, register: Self) -> u8 {
        byte_reg(store, register)
    }

    open spec fn write_spec(store: Register, register: Self, value: u8) -> Register {
        with_byte_reg(store, register, value)
    }

    fn read_reg(store: &Register, register: &Self) -> (r: u8) {
        match register {
            RegisterByteType::Al => (store.ax & 0xff) as u8,
            RegisterByteType::Cl => (store.cx & 0xff) as u8,
            RegisterByteType::Dl => (store.dx & 0xff) as u8,
            RegisterByteType::Bl => (store.bx & 0xff) as u8,
            RegisterByteType::Ah => ((store.ax >> 8) & 0xff) as u8,
            RegisterByteType::Ch => ((store.cx >> 8) & 0xff) as u8,
            RegisterByteType::Dh => ((store.dx >> 8) & 0xff) as u8,
            RegisterByteType::Bh => ((store.bx >> 8) & 0xff) as u8,
        }
    }

    fn write_reg(store: &mut Register, register: &Self, value: u8) {
        match register {
            RegisterByteType::Al => store.ax = (store.ax & 0xff00) | (value as u16),
            RegisterByteType::Cl => store.cx = (store.cx & 0xff00) | (value as u16),
            RegisterByteType::Dl => store.dx = (store.dx & 0xff00) | (value as u16),
            RegisterByteType::Bl => store.bx = (store.bx & 0xff00) | (value as u16),
            RegisterByteType::Ah => store.ax = (store.ax & 0x00ff) | ((value as u16) << 8),
            RegisterByteType::Ch => store.cx = (store.cx & 0x00ff) | ((value as u16) << 8),
            RegisterByteType::Dh => store.dx = (store.dx & 0x00ff) | ((value as u16) << 8),
            RegisterByteType::Bh => store.bx = (store.bx & 0x00ff) | ((value as u16) << 8),
        }
    }
}

/// A value that can move through a register name of matching width.
pub trait RegisterValue<T: RegisterType<Value = Self>>: Sized {
    /// Read the named register.
    fn read_reg(store: &Register, register: &T) -> (r: Self)
        ensures
            r == T::read_spec(*store, *register),
    ;

    /// Write the named register.
    fn write_reg(store: &mut Register, register: &T, value: Self)
        ensures
            *final(store) == T::write_spec(*old(store), *register, value),
    ;
}

impl<T, V> RegisterValue<T> for V where T: RegisterType<Value = V> {
    fn read_reg(store: &Register, register: &T) -> (r: V) {
        T::read_reg(store, register)
    }

    fn write_reg(store: &mut Register, register: &T, value: V) {
        T::write_reg(store, register, value)
    }
}

/// Byte/word register aliasing: writing the low byte and then the high byte
/// of a general-purpose word composes to the full word, high byte on top.
pub proof fn lemma_byte_word_aliasing(store: Register, x: u8, y: u8)
    ensures
        ({
            let r1 = with_byte_reg(store, RegisterByteType::Al, x);
            let r2 = with_byte_reg(r1, RegisterByteType::Ah, y);
            word_reg(r2, RegisterWordType::Ax) == ((y as u16) << 8) | (x as u16)
        }),
{
    let ax = store.ax;
    assert((((ax & 0xff00) | (x as u16)) & 0x00ff) | ((y as u16) << 8) == ((y as u16) << 8) | (
    x as u16)) by (bit_vector);
}

} // verus!
