//! The flag word. Only the nine architectural bits are defined; the rest of
//! the word reads as written.

use super::cpu::CPU;
use super::register::Register;
use crate::mem::Memory;
use vstd::prelude::*;

verus! {

/// Carry flag.
pub const CF: u16 = 0x0001;

/// Parity flag: even parity of the low result byte.
pub const PF: u16 = 0x0004;

/// Auxiliary carry flag: carry out of the low nibble.
pub const AF: u16 = 0x0010;

/// Zero flag.
pub const ZF: u16 = 0x0040;

/// Sign flag: the top bit of the result.
pub const SF: u16 = 0x0080;

/// Trap flag.
pub const TF: u16 = 0x0100;

/// Interrupt-enable flag.
pub const IF: u16 = 0x0200;

/// Direction flag for string operations: clear counts up.
pub const DF: u16 = 0x0400;

/// Overflow flag: signed overflow of the result.
pub const OF: u16 = 0x0800;

/// The flag word after clearing `clear` and then setting `set`.
pub open spec fn blit(flags: u16, clear: u16, set: u16) -> u16 {
    (flags & !clear) | set
}

/// What `blit` promises bitwise: every bit of `clear` not in `set` comes out
/// clear, and every bit of `set` comes out set, whatever `clear` says.
pub proof fn lemma_blit_bits(flags: u16, clear: u16, set: u16)
    ensures
        blit(flags, clear, set) & (clear & !set) == 0,
        blit(flags, clear, set) & set == set,
        blit(flags, clear, set) & !(clear | set) == flags & !(clear | set),
{
    assert(((flags & !clear) | set) & (clear & !set) == 0 && ((flags & !clear) | set) & set == set
        && ((flags & !clear) | set) & !(clear | set) == flags & !(clear | set)) by (bit_vector);
}

impl<M: Memory, P: Memory> CPU<M, P> {
    /// The current flag word.
    pub fn get_flags(&self) -> (r: u16)
        ensures
            r == self.register.flags,
    {
        self.register.flags
    }

    /// Replace the whole flag word.
    pub fn set_flags(&mut self, value: u16)
        ensures
            *final(self) == (CPU { register: Register { flags: value, ..old(self).register },
                ..*old(self) }),
    {
        self.register.flags = value;
    }

    /// Clear the `clear` bits, then set the `set` bits.
    pub fn blit_flags(&mut self, clear: u16, set: u16)
        ensures
            *final(self) == (CPU {
                register: Register {
                    flags: blit(old(self).register.flags, clear, set),
                    ..old(self).register
                },
                ..*old(self)
            }),
    {
        self.register.flags = (self.register.flags & !clear) | set;
    }
}

} // verus!
