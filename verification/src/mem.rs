//! Memory capability: word-addressed 32-bit backing storage with
//! little-endian byte and 16-bit word access on top of it.
//!
//! A backing store maps a word address to a `u32`. Byte address `a` lives in
//! backing word `a / 4`, at byte position `a % 4` (little-endian). A 16-bit
//! access at byte address `a` touches the bytes at `a` and `a + 1` and may
//! therefore cross a backing-word boundary.
//!
//! Reads are total: an implementation returns some value (commonly zero) for
//! every address. Writes to addresses the implementation does not back are
//! absorbed; `writable` tells, per backing word, whether a write sticks.

pub mod linear;
pub mod paged;

use vstd::prelude::*;

verus! {

/// Byte `step` (0 to 3) of a 32-bit backing word, little-endian.
pub open spec fn word_byte(word: u32, step: int) -> u8 {
    if step == 0 {
        (word & 0xff) as u8
    } else if step == 1 {
        ((word >> 8) & 0xff) as u8
    } else if step == 2 {
        ((word >> 16) & 0xff) as u8
    } else {
        ((word >> 24) & 0xff) as u8
    }
}

/// A word-addressed backing store of 32-bit cells.
pub trait Memory: Sized {
    /// The 32-bit word the store holds at `word_addr`, for every address.
    spec fn word_at(&self, word_addr: int) -> u32;

    /// Whether a write to backing word `word_addr` sticks.
    spec fn writable(&self, word_addr: int) -> bool;

    /// Read one backing word.
    fn read(&self, word_addr: usize) -> (r: u32)
        ensures
            r == self.word_at(word_addr as int),
    ;

    /// Write one backing word; the write is absorbed where the store does
    /// not back the address.
    fn write(&mut self, word_addr: usize, value: u32)
        ensures
            forall|a: int|
                #[trigger] final(self).word_at(a) == if a == word_addr as int
                    && old(self).writable(a) {
                    value
                } else {
                    old(self).word_at(a)
                },
            forall|a: int| #[trigger] final(self).writable(a) == old(self).writable(a),
    ;

}

/// The byte a store holds at byte address `byte_addr`.
pub open spec fn byte_at<M: Memory>(m: M, byte_addr: int) -> u8 {
    word_byte(m.word_at(byte_addr / 4), byte_addr % 4)
}

/// Whether a byte write at `byte_addr` sticks: its backing word is writable.
pub open spec fn byte_writable<M: Memory>(m: M, byte_addr: int) -> bool {
    m.writable(byte_addr / 4)
}

/// The little-endian 16-bit value whose low byte sits at `byte_addr`.
pub open spec fn word16_at<M: Memory>(m: M, byte_addr: int) -> u16 {
    (byte_at(m, byte_addr) + byte_at(m, byte_addr + 1) * 0x100) as u16
}

/// The little-endian byte image of a 16-bit value.
pub open spec fn word_bytes(value: u16) -> Seq<u8> {
    seq![(value & 0xff) as u8, ((value >> 8) & 0xff) as u8]
}

/// Read the byte at a byte address.
pub fn read_u8<M: Memory>(memory: &M, byte_addr: usize) -> (r: u8)
    ensures
        r == byte_at(*memory, byte_addr as int),
{
    let word_addr = byte_addr / 4;
    let step = byte_addr % 4;
    let word = memory.read(word_addr);
    if step == 0 {
        (word & 0xff) as u8
    } else if step == 1 {
        ((word >> 8) & 0xff) as u8
    } else if step == 2 {
        ((word >> 16) & 0xff) as u8
    } else {
        ((word >> 24) & 0xff) as u8
    }
}

/// Write the byte at a byte address, leaving every other byte unchanged.
pub fn write_u8<M: Memory>(memory: &mut M, byte_addr: usize, value: u8)
    ensures
        mem_wrote(*old(memory), *final(memory), byte_addr as int, seq![value]),
{
    let word_addr = byte_addr / 4;
    let step = byte_addr % 4;
    let word = memory.read(word_addr);
    let new_word = if step == 0 {
        (word & 0xffff_ff00) | (value as u32)
    } else if step == 1 {
        (word & 0xffff_00ff) | ((value as u32) << 8)
    } else if step == 2 {
        (word & 0xff00_ffff) | ((value as u32) << 16)
    } else {
        (word & 0x00ff_ffff) | ((value as u32) << 24)
    };
    proof {
        let wa = byte_addr as int;
        assert(word_addr as int == wa / 4);
        assert(step as int == wa % 4);
        lemma_word_byte_update(word, wa % 4, value, new_word);
    }
    memory.write(word_addr, new_word);
    proof {
        reveal(mem_wrote);
        assert forall|a: int|
            #[trigger] byte_at(*memory, a) == if byte_addr as int <= a < byte_addr as int + 1
                && byte_writable(*old(memory), a) {
                seq![value][a - byte_addr as int]
            } else {
                byte_at(*old(memory), a)
            } by {
            let wa = byte_addr as int;
            assert((*memory).word_at(a / 4) == if a / 4 == word_addr as int && old(
                memory,
            ).writable(a / 4) {
                new_word
            } else {
                old(memory).word_at(a / 4)
            });
            if a / 4 == wa / 4 {
                vstd::arithmetic::div_mod::lemma_fundamental_div_mod(a, 4);
                vstd::arithmetic::div_mod::lemma_fundamental_div_mod(wa, 4);
                if a == wa {
                    assert(a % 4 == wa % 4);
                } else {
                    assert(a % 4 != wa % 4);
                }
            }
        }
    }
}

/// Read the little-endian 16-bit value whose low byte sits at `byte_addr`:
/// two sequential byte reads, so it may cross a backing-word boundary.
pub fn read_u16<M: Memory>(memory: &M, byte_addr: usize) -> (r: u16)
    requires
        byte_addr < usize::MAX,
    ensures
        r == word16_at(*memory, byte_addr as int),
{
    let lo = read_u8(memory, byte_addr);
    let hi = read_u8(memory, byte_addr + 1);
    let r = (lo as u16) | ((hi as u16) << 8);
    proof {
        lemma_byte_pack();
    }
    r
}

/// Write a little-endian 16-bit value: two sequential byte writes.
pub fn write_u16<M: Memory>(memory: &mut M, byte_addr: usize, value: u16)
    requires
        byte_addr < usize::MAX,
    ensures
        mem_wrote(*old(memory), *final(memory), byte_addr as int, word_bytes(value)),
{
    let ghost m0 = *memory;
    write_u8(memory, byte_addr, (value & 0xff) as u8);
    let ghost m1 = *memory;
    write_u8(memory, byte_addr + 1, ((value >> 8) & 0xff) as u8);
    proof {
        reveal(mem_wrote);
        let bytes = word_bytes(value);
        assert forall|a: int|
            #[trigger] byte_at(*memory, a) == if byte_addr as int <= a < byte_addr as int + 2
                && byte_writable(m0, a) {
                bytes[a - byte_addr as int]
            } else {
                byte_at(m0, a)
            } by {
            assert(byte_at(m1, a) == if byte_addr as int <= a < byte_addr as int + 1
                && byte_writable(m0, a) {
                (value & 0xff) as u8
            } else {
                byte_at(m0, a)
            });
            assert(m1.writable(a / 4) == m0.writable(a / 4));
        }
    }
}

/// `m1` is `m0` with `bytes` written at `addr`: each byte of the run lands
/// where its backing word is writable, every other byte is unchanged, and
/// writability itself is unchanged.
#[verifier::opaque]
pub open spec fn mem_wrote<M: Memory>(m0: M, m1: M, addr: int, bytes: Seq<u8>) -> bool {
    &&& forall|a: int|
        #[trigger] byte_at(m1, a) == if addr <= a < addr + bytes.len() && byte_writable(m0, a) {
            bytes[a - addr]
        } else {
            byte_at(m0, a)
        }
    &&& forall|a: int| #[trigger] m1.writable(a) == m0.writable(a)
}

/// Replacing one byte inside a backing word leaves its other bytes alone.
proof fn lemma_word_byte_update(word: u32, step: int, value: u8, new_word: u32)
    requires
        0 <= step < 4,
        new_word == if step == 0 {
            (word & 0xffff_ff00) | (value as u32)
        } else if step == 1 {
            (word & 0xffff_00ff) | ((value as u32) << 8)
        } else if step == 2 {
            (word & 0xff00_ffff) | ((value as u32) << 16)
        } else {
            (word & 0x00ff_ffff) | ((value as u32) << 24)
        },
    ensures
        forall|k: int|
            0 <= k < 4 ==> #[trigger] word_byte(new_word, k) == if k == step {
                value
            } else {
                word_byte(word, k)
            },
{
    let v = value as u32;
    let w2 = new_word;
    if step == 0 {
        assert(w2 & 0xff == v && (w2 >> 8) & 0xff == (word >> 8) & 0xff && (w2 >> 16) & 0xff == (
        word >> 16) & 0xff && (w2 >> 24) & 0xff == (word >> 24) & 0xff) by (bit_vector)
            requires
                v < 0x100,
                w2 == (word & 0xffff_ff00) | v,
        ;
    } else if step == 1 {
        assert((w2 >> 8) & 0xff == v && w2 & 0xff == word & 0xff && (w2 >> 16) & 0xff == (word
            >> 16) & 0xff && (w2 >> 24) & 0xff == (word >> 24) & 0xff) by (bit_vector)
            requires
                v < 0x100,
                w2 == (word & 0xffff_00ff) | (v << 8),
        ;
    } else if step == 2 {
        assert((w2 >> 16) & 0xff == v && w2 & 0xff == word & 0xff && (w2 >> 8) & 0xff == (word
            >> 8) & 0xff && (w2 >> 24) & 0xff == (word >> 24) & 0xff) by (bit_vector)
            requires
                v < 0x100,
                w2 == (word & 0xff00_ffff) | (v << 16),
        ;
    } else {
        assert((w2 >> 24) & 0xff == v && w2 & 0xff == word & 0xff && (w2 >> 8) & 0xff == (word
            >> 8) & 0xff && (w2 >> 16) & 0xff == (word >> 16) & 0xff) by (bit_vector)
            requires
                v < 0x100,
                w2 == (word & 0x00ff_ffff) | (v << 24),
        ;
    }
}


/// Low-bit extraction facts used throughout: masks agree with remainders
/// and stay in range.
pub proof fn lemma_low_bits_u16()
    by (bit_vector)
    ensures
        forall|x: u16| #[trigger] (x & 0xff) == x % 0x100,
        forall|x: u16| #[trigger] (x & 0xff) < 0x100,
        forall|x: u16| #[trigger] (x >> 8) < 0x100,
        forall|x: u16| #[trigger] ((x >> 8) & 0xff) < 0x100,
        forall|x: u8| #[trigger] (x & 0xf) < 0x10,
        forall|x: u8| #[trigger] (x & 0xff) < 0x100,
        forall|x: u16| #[trigger] (x & 0xf) < 0x10,
        forall|x: u16| #[trigger] (x & 0x1ff) < 0x200,
        forall|x: u16| #[trigger] (x as u8) == x % 0x100,
{
}

/// Low-bit extraction facts for 32-bit quantities.
pub proof fn lemma_low_bits_u32()
    by (bit_vector)
    ensures
        forall|x: u32| #[trigger] (x & 0xffff) == x % 0x10000,
        forall|x: u32| #[trigger] (x & 0xffff) < 0x10000,
        forall|x: u32| #[trigger] (x >> 16) == x / 0x10000,
        forall|x: u32| #[trigger] (x >> 16) < 0x10000,
        forall|x: u32| #[trigger] (x & 0xff) == x % 0x100,
        forall|x: u32| #[trigger] (x & 0xff) < 0x100,
        forall|x: u32| #[trigger] (x & 0x1ffff) < 0x20000,
        forall|x: u32| #[trigger] (x & 0xf) < 0x10,
{
}

/// Packing two bytes into a word is positional arithmetic, in either
/// operand order.
pub proof fn lemma_byte_pack()
    by (bit_vector)
    ensures
        forall|hi: u8, lo: u8| #[trigger] (((hi as u16) << 8) | (lo as u16)) == hi * 0x100 + lo,
        forall|hi: u8, lo: u8| #[trigger] ((lo as u16) | ((hi as u16) << 8)) == lo + hi * 0x100,
{
}

/// Packing two words into a pair is positional arithmetic.
pub proof fn lemma_word_pack()
    by (bit_vector)
    ensures
        forall|hi: u16, lo: u16| #[trigger] ((lo as u32) | ((hi as u32) << 16)) == lo + hi
            * 0x10000,
{
}


/// A signed 16-bit value reinterpreted as unsigned keeps its value, moved
/// up by the word modulus when negative.
proof fn lemma_i16_cast()
    by (bit_vector)
    ensures
        forall|b: i16| b < 0 ==> #[trigger] (b as u16) == b + 0x10000,
        forall|b: i16| b >= 0 ==> #[trigger] (b as u16) == b,
{
}

/// Wrapping 16-bit arithmetic agrees with modular arithmetic, also when the
/// addend arrives as a sign-extended displacement.
pub proof fn lemma_wrap_ops_u16()
    ensures
        forall|a: u16, b: u16|
            #[trigger] vstd::wrapping::u16_specs::wrapping_add(a, b) == (a + b) % 0x10000,
        forall|a: u16, b: u16|
            #[trigger] vstd::wrapping::u16_specs::wrapping_sub(a, b) == (a - b) % 0x10000,
        forall|b: i16| #[trigger] (b as u16) == (b as int) % 0x10000,
        forall|a: u16, b: i16|
            #[trigger] vstd::wrapping::u16_specs::wrapping_add(a, b as u16) == (a + b) % 0x10000,
{
    assert forall|a: u16, b: u16|
        #[trigger] vstd::wrapping::u16_specs::wrapping_add(a, b) == (a + b) % 0x10000 by {
        if a + b > 0xffff {
            assert((a + b) % 0x10000 == a + b - 0x10000) by (nonlinear_arith)
                requires
                    0x10000 <= a + b < 0x20000,
            ;
        } else {
            assert((a + b) % 0x10000 == a + b) by (nonlinear_arith)
                requires
                    0 <= a + b <= 0xffff,
            ;
        }
    }
    assert forall|a: u16, b: u16|
        #[trigger] vstd::wrapping::u16_specs::wrapping_sub(a, b) == (a - b) % 0x10000 by {
        if a - b < 0 {
            assert((a - b) % 0x10000 == a - b + 0x10000) by (nonlinear_arith)
                requires
                    -0x10000 < a - b < 0,
            ;
        } else {
            assert((a - b) % 0x10000 == a - b) by (nonlinear_arith)
                requires
                    0 <= a - b < 0x10000,
            ;
        }
    }
    lemma_i16_cast();
    assert forall|b: i16| #[trigger] (b as u16) == (b as int) % 0x10000 by {
        if b < 0 {
            assert((b as int) % 0x10000 == b + 0x10000) by (nonlinear_arith)
                requires
                    -0x10000 < b < 0,
            ;
        } else {
            assert((b as int) % 0x10000 == b) by (nonlinear_arith)
                requires
                    0 <= b < 0x10000,
            ;
        }
    }
    assert forall|a: u16, b: i16|
        #[trigger] vstd::wrapping::u16_specs::wrapping_add(a, b as u16) == (a + b) % 0x10000 by {
        let bu = b as u16;
        assert(bu == (b as int) % 0x10000);
        if b < 0 {
            assert((b as int) % 0x10000 == b + 0x10000) by (nonlinear_arith)
                requires
                    -0x10000 < b < 0,
            ;
            assert((a + b + 0x10000) % 0x10000 == (a + b) % 0x10000) by (nonlinear_arith);
            if a + bu > 0xffff {
                assert((a + bu) % 0x10000 == a + bu - 0x10000) by (nonlinear_arith)
                    requires
                        0x10000 <= a + bu < 0x20000,
                ;
            } else {
                assert((a + bu) % 0x10000 == a + bu) by (nonlinear_arith)
                    requires
                        0 <= a + bu <= 0xffff,
                ;
            }
        } else {
            assert((b as int) % 0x10000 == b) by (nonlinear_arith)
                requires
                    0 <= b < 0x10000,
            ;
            if a + bu > 0xffff {
                assert((a + bu) % 0x10000 == a + bu - 0x10000) by (nonlinear_arith)
                    requires
                        0x10000 <= a + bu < 0x20000,
                ;
            } else {
                assert((a + bu) % 0x10000 == a + bu) by (nonlinear_arith)
                    requires
                        0 <= a + bu <= 0xffff,
                ;
            }
        }
    }
}

/// A value that can be read from and written to a backing store at a byte
/// address: bytes and little-endian 16-bit words.
pub trait MemoryValue<M: Memory>: Sized {
    /// The value read at `byte_addr`.
    spec fn read_spec(m: M, byte_addr: int) -> Self;

    /// The little-endian byte image of a value.
    spec fn bytes_of(value: Self) -> Seq<u8>;

    /// Read one value at a byte address.
    fn read_mem(memory: &M, byte_addr: usize) -> (r: Self)
        requires
            byte_addr < usize::MAX,
        ensures
            r == Self::read_spec(*memory, byte_addr as int),
    ;

    /// Write one value at a byte address.
    fn write_mem(memory: &mut M, byte_addr: usize, value: Self)
        requires
            byte_addr < usize::MAX,
        ensures
            mem_wrote(*old(memory), *final(memory), byte_addr as int, Self::bytes_of(value)),
    ;
}

impl<M: Memory> MemoryValue<M> for u8 {
    open spec fn read_spec(m: M, byte_addr: int) -> u8 {
        byte_at(m, byte_addr)
    }

    open spec fn bytes_of(value: u8) -> Seq<u8> {
        seq![value]
    }

    fn read_mem(memory: &M, byte_addr: usize) -> (r: u8) {
        read_u8(memory, byte_addr)
    }

    fn write_mem(memory: &mut M, byte_addr: usize, value: u8) {
        write_u8(memory, byte_addr, value);
    }
}

impl<M: Memory> MemoryValue<M> for u16 {
    open spec fn read_spec(m: M, byte_addr: int) -> u16 {
        word16_at(m, byte_addr)
    }

    open spec fn bytes_of(value: u16) -> Seq<u8> {
        word_bytes(value)
    }

    fn read_mem(memory: &M, byte_addr: usize) -> (r: u16) {
        read_u16(memory, byte_addr)
    }

    fn write_mem(memory: &mut M, byte_addr: usize, value: u16) {
        write_u16(memory, byte_addr, value);
    }
}

/// What a finished write says about any single byte address.
pub proof fn lemma_mem_wrote_byte<M: Memory>(m0: M, m1: M, addr: int, bytes: Seq<u8>, a: int)
    requires
        mem_wrote(m0, m1, addr, bytes),
    ensures
        byte_at(m1, a) == if addr <= a < addr + bytes.len() && byte_writable(m0, a) {
            bytes[a - addr]
        } else {
            byte_at(m0, a)
        },
        m1.writable(a) == m0.writable(a),
        byte_writable(m1, a) == byte_writable(m0, a),
{
    reveal(mem_wrote);
    assert(m1.writable(a / 4) == m0.writable(a / 4));
}

/// The two bytes of a word image, and their positional recombination.
pub proof fn lemma_word_bytes_values(v: u16)
    ensures
        word_bytes(v).len() == 2,
        word_bytes(v)[0] == (v & 0xff) as u8,
        word_bytes(v)[1] == ((v >> 8) & 0xff) as u8,
        (v & 0xff) + ((v >> 8) & 0xff) * 0x100 == v as int,
        (v & 0xff) < 0x100,
        ((v >> 8) & 0xff) < 0x100,
{
    assert((v & 0xff) + ((v >> 8) & 0xff) * 0x100 == v as int && (v & 0xff) < 0x100 && ((v >> 8)
        & 0xff) < 0x100) by (bit_vector);
}

/// A word written where both its byte slots are writable reads back as
/// itself.
pub proof fn lemma_mem_wrote_word<M: Memory>(m0: M, m1: M, addr: int, v: u16)
    requires
        mem_wrote(m0, m1, addr, word_bytes(v)),
        byte_writable(m0, addr),
        byte_writable(m0, addr + 1),
    ensures
        word16_at(m1, addr) == v,
{
    lemma_word_bytes_values(v);
    lemma_mem_wrote_byte(m0, m1, addr, word_bytes(v), addr);
    lemma_mem_wrote_byte(m0, m1, addr, word_bytes(v), addr + 1);
}

} // verus!
