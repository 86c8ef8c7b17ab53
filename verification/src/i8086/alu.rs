//! The arithmetic core: byte and word add, subtract and logic primitives,
//! each returning its result together with the flag bits to clear and to
//! set. Every binary and unary operation of the executor composes with
//! these, so the flag semantics live here and nowhere else.

use super::flags::blit;
use super::flags::AF;
use super::flags::CF;
use super::flags::OF;
use super::flags::PF;
use super::flags::SF;
use super::flags::ZF;
use vstd::prelude::*;

verus! {

/// The flag bits an arithmetic operation rewrites.
pub const ARITH_FLAGS: u16 = 0x08D5;

/// The flag bits a logic operation rewrites; the auxiliary carry is left
/// as it was.
pub const LOGIC_FLAGS: u16 = 0x08C5;

/// The value of a byte read as a signed quantity.
pub open spec fn signed8(v: u8) -> int {
    if v < 0x80 {
        v as int
    } else {
        v - 0x100
    }
}

/// The value of a word read as a signed quantity.
pub open spec fn signed16(v: u16) -> int {
    if v < 0x8000 {
        v as int
    } else {
        v - 0x10000
    }
}

/// How many bits of a byte are set.
pub open spec fn popcount8(v: u8) -> int {
    (v & 1) + ((v >> 1) & 1) + ((v >> 2) & 1) + ((v >> 3) & 1) + ((v >> 4) & 1) + ((v >> 5) & 1) + (
    (v >> 6) & 1) + ((v >> 7) & 1)
}

/// Whether a byte has an even number of set bits.
pub open spec fn parity_even(v: u8) -> bool {
    popcount8(v) % 2 == 0
}

/// The carry contribution of a carry-in flag.
pub open spec fn carry_in(c: bool) -> int {
    if c {
        1
    } else {
        0
    }
}

/// The sign, zero and parity bits a result of byte width sets. Parity is
/// always taken over the low byte.
pub open spec fn szp_flags8(r: u8) -> u16 {
    (if r >= 0x80 {
        SF
    } else {
        0
    }) | (if r == 0 {
        ZF
    } else {
        0
    }) | (if parity_even(r) {
        PF
    } else {
        0
    })
}

/// The sign, zero and parity bits a result of word width sets; parity still
/// looks only at the low byte.
pub open spec fn szp_flags16(r: u16) -> u16 {
    (if r >= 0x8000 {
        SF
    } else {
        0
    }) | (if r == 0 {
        ZF
    } else {
        0
    }) | (if parity_even((r & 0xff) as u8) {
        PF
    } else {
        0
    })
}

/// The byte result of `src + dest + carry`.
pub open spec fn add_result8(src: u8, dest: u8, carry: bool) -> u8 {
    ((src + dest + carry_in(carry)) % 0x100) as u8
}

/// The flag bits a byte addition sets: carry out of bit 7, auxiliary carry
/// out of bit 3, signed overflow, and sign/zero/parity of the result.
pub open spec fn add_flags8(src: u8, dest: u8, carry: bool) -> u16 {
    szp_flags8(add_result8(src, dest, carry)) | (if src + dest + carry_in(carry) > 0xFF {
        CF
    } else {
        0
    }) | (if (src & 0xf) + (dest & 0xf) + carry_in(carry) > 0xf {
        AF
    } else {
        0
    }) | (if !(-0x80 <= signed8(src) + signed8(dest) + carry_in(carry) <= 0x7f) {
        OF
    } else {
        0
    })
}

/// The byte result of `dest - (src + carry)`.
pub open spec fn sub_result8(src: u8, dest: u8, carry: bool) -> u8 {
    ((dest - src - carry_in(carry)) % 0x100) as u8
}

/// The flag bits a byte subtraction sets: borrow, auxiliary borrow, signed
/// overflow, and sign/zero/parity of the result.
pub open spec fn sub_flags8(src: u8, dest: u8, carry: bool) -> u16 {
    szp_flags8(sub_result8(src, dest, carry)) | (if src + carry_in(carry) > dest {
        CF
    } else {
        0
    }) | (if (src & 0xf) + carry_in(carry) > (dest & 0xf) {
        AF
    } else {
        0
    }) | (if !(-0x80 <= signed8(dest) - signed8(src) - carry_in(carry) <= 0x7f) {
        OF
    } else {
        0
    })
}

/// The word result of `src + dest + carry`.
pub open spec fn add_result16(src: u16, dest: u16, carry: bool) -> u16 {
    ((src + dest + carry_in(carry)) % 0x10000) as u16
}

/// The flag bits a word addition sets.
pub open spec fn add_flags16(src: u16, dest: u16, carry: bool) -> u16 {
    szp_flags16(add_result16(src, dest, carry)) | (if src + dest + carry_in(carry) > 0xFFFF {
        CF
    } else {
        0
    }) | (if (src & 0xf) + (dest & 0xf) + carry_in(carry) > 0xf {
        AF
    } else {
        0
    }) | (if !(-0x8000 <= signed16(src) + signed16(dest) + carry_in(carry) <= 0x7fff) {
        OF
    } else {
        0
    })
}

/// The word result of `dest - (src + carry)`.
pub open spec fn sub_result16(src: u16, dest: u16, carry: bool) -> u16 {
    ((dest - src - carry_in(carry)) % 0x10000) as u16
}

/// The flag bits a word subtraction sets.
pub open spec fn sub_flags16(src: u16, dest: u16, carry: bool) -> u16 {
    szp_flags16(sub_result16(src, dest, carry)) | (if src + carry_in(carry) > dest {
        CF
    } else {
        0
    }) | (if (src & 0xf) + carry_in(carry) > (dest & 0xf) {
        AF
    } else {
        0
    }) | (if !(-0x8000 <= signed16(dest) - signed16(src) - carry_in(carry) <= 0x7fff) {
        OF
    } else {
        0
    })
}

/// The truncating (toward zero) quotient, as hardware division computes it.
pub open spec fn trunc_div(a: int, b: int) -> int
    recommends
        b != 0,
{
    if a >= 0 {
        if b >= 0 {
            a / b
        } else {
            -(a / -b)
        }
    } else {
        if b >= 0 {
            -(-a / b)
        } else {
            -a / -b
        }
    }
}

/// The remainder matching the truncating quotient; its sign follows the
/// dividend.
pub open spec fn trunc_rem(a: int, b: int) -> int
    recommends
        b != 0,
{
    a - b * trunc_div(a, b)
}

/// A signed value encoded as a byte, two's complement.
pub open spec fn to_signed8(a: int) -> u8
    recommends
        -0x80 <= a <= 0x7f,
{
    if a >= 0 {
        a as u8
    } else {
        (a + 0x100) as u8
    }
}

/// A signed value encoded as a word, two's complement.
pub open spec fn to_signed16(a: int) -> u16
    recommends
        -0x8000 <= a <= 0x7fff,
{
    if a >= 0 {
        a as u16
    } else {
        (a + 0x10000) as u16
    }
}

/// The flag bits an unsigned multiply sets: carry and overflow when the
/// upper half of the full product is nonzero, and sign, zero and parity of
/// the lower half for determinism.
pub open spec fn mul_flags8(product: int) -> u16 {
    szp_flags8((product % 0x100) as u8) | (if product > 0xFF {
        CF | OF
    } else {
        0
    })
}

/// The word-width counterpart of `mul_flags8`.
pub open spec fn mul_flags16(product: int) -> u16 {
    szp_flags16((product % 0x10000) as u16) | (if product > 0xFFFF {
        CF | OF
    } else {
        0
    })
}

/// The flag bits a signed multiply sets: carry and overflow unless the full
/// product fits the low half sign-extended.
pub open spec fn imul_flags8(product: int) -> u16 {
    szp_flags8((product % 0x100) as u8) | (if !(-0x80 <= product <= 0x7f) {
        CF | OF
    } else {
        0
    })
}

/// The word-width counterpart of `imul_flags8`.
pub open spec fn imul_flags16(product: int) -> u16 {
    szp_flags16((product % 0x10000) as u16) | (if !(-0x8000 <= product <= 0x7fff) {
        CF | OF
    } else {
        0
    })
}

/// Unsigned byte multiply: the 16-bit product and the flag bits to clear
/// and to set.
pub fn alu_mul8(a: u8, b: u8) -> (r: (u16, u16, u16))
    ensures
        r.0 == a * b,
        r.1 == LOGIC_FLAGS,
        r.2 == mul_flags8((a * b) as int),
{
    proof {
        assert(a * b < 0x10000) by (nonlinear_arith)
            requires
                a < 0x100 && b < 0x100,
        ;
        crate::mem::lemma_low_bits_u16();
    }
    let product: u16 = (a as u16) * (b as u16);
    let low: u8 = (product & 0xff) as u8;
    let flags = szp8(low) | (if product > 0xFF {
        CF | OF
    } else {
        0u16
    });
    (product, LOGIC_FLAGS, flags)
}

/// Unsigned word multiply: the 32-bit product and the flag bits to clear
/// and to set.
pub fn alu_mul16(a: u16, b: u16) -> (r: (u32, u16, u16))
    ensures
        r.0 == a * b,
        r.1 == LOGIC_FLAGS,
        r.2 == mul_flags16((a * b) as int),
{
    proof {
        assert(a * b < 0x100000000) by (nonlinear_arith)
            requires
                a < 0x10000 && b < 0x10000,
        ;
        crate::mem::lemma_low_bits_u32();
    }
    let product: u32 = (a as u32) * (b as u32);
    let low: u16 = (product & 0xffff) as u16;
    let flags = szp16(low) | (if product > 0xFFFF {
        CF | OF
    } else {
        0u16
    });
    (product, LOGIC_FLAGS, flags)
}

/// Signed byte multiply: the 16-bit two's-complement product and the flag
/// bits to clear and to set.
pub fn alu_imul8(a: u8, b: u8) -> (r: (u16, u16, u16))
    ensures
        ({
            let product = signed8(a) * signed8(b);
            &&& r.0 == to_signed16(product)
            &&& r.1 == LOGIC_FLAGS
            &&& r.2 == imul_flags8(product)
        }),
{
    let mag_a: u16 = if a >= 0x80 {
        0x100 - (a as u16)
    } else {
        a as u16
    };
    let mag_b: u16 = if b >= 0x80 {
        0x100 - (b as u16)
    } else {
        b as u16
    };
    let neg: bool = (a >= 0x80) != (b >= 0x80);
    proof {
        assert(mag_a * mag_b <= 0x8000) by (nonlinear_arith)
            requires
                mag_a <= 0x80 && mag_b <= 0x80,
        ;
    }
    let mag: u32 = (mag_a as u32) * (mag_b as u32);
    proof {
        assert(mag == (if signed8(a) * signed8(b) >= 0 {
            signed8(a) * signed8(b)
        } else {
            -(signed8(a) * signed8(b))
        })) by (nonlinear_arith)
            requires
                mag == mag_a * mag_b,
                mag_a == (if signed8(a) >= 0 {
                    signed8(a)
                } else {
                    -signed8(a)
                }),
                mag_b == (if signed8(b) >= 0 {
                    signed8(b)
                } else {
                    -signed8(b)
                }),
        ;
        assert(mag <= 0x8000) by (nonlinear_arith)
            requires
                mag == mag_a * mag_b && mag_a <= 0x80 && mag_b <= 0x80,
        ;
    }
    let product: u16 = if neg && mag > 0 {
        (0x10000u32 - mag) as u16
    } else {
        mag as u16
    };
    proof {
        let p = signed8(a) * signed8(b);
        assert(neg && p != 0 ==> p < 0) by (nonlinear_arith)
            requires
                p == signed8(a) * signed8(b),
                neg == ((signed8(a) < 0) != (signed8(b) < 0)),
        ;
        assert(!neg && p != 0 ==> p > 0) by (nonlinear_arith)
            requires
                p == signed8(a) * signed8(b),
                neg == ((signed8(a) < 0) != (signed8(b) < 0)),
        ;
        assert(product == to_signed16(p));
        assert(product % 0x100 == (p % 0x100 + 0x100) % 0x100) by (nonlinear_arith)
            requires
                -0x8000 <= p <= 0x8000 && product == (if p >= 0 {
                    p
                } else {
                    p + 0x10000
                }),
        ;
        assert((p % 0x100 + 0x100) % 0x100 == p % 0x100) by (nonlinear_arith);
        crate::mem::lemma_low_bits_u16();
    }
    let low: u8 = (product & 0xff) as u8;
    let fits: bool = product < 0x80 || product >= 0xFF80;
    proof {
        assert(fits == (-0x80 <= signed8(a) * signed8(b) <= 0x7f));
    }
    let flags = szp8(low) | (if fits {
        0u16
    } else {
        CF | OF
    });
    (product, LOGIC_FLAGS, flags)
}

/// Signed word multiply: the 32-bit two's-complement product and the flag
/// bits to clear and to set.
pub fn alu_imul16(a: u16, b: u16) -> (r: (u32, u16, u16))
    ensures
        ({
            let product = signed16(a) * signed16(b);
            &&& r.0 == (if product >= 0 {
                product
            } else {
                product + 0x100000000
            })
            &&& r.1 == LOGIC_FLAGS
            &&& r.2 == imul_flags16(product)
        }),
{
    let mag_a: u32 = if a >= 0x8000 {
        0x10000 - (a as u32)
    } else {
        a as u32
    };
    let mag_b: u32 = if b >= 0x8000 {
        0x10000 - (b as u32)
    } else {
        b as u32
    };
    let neg: bool = (a >= 0x8000) != (b >= 0x8000);
    proof {
        assert(mag_a * mag_b <= 0x40000000) by (nonlinear_arith)
            requires
                mag_a <= 0x8000 && mag_b <= 0x8000,
        ;
    }
    let mag: u64 = (mag_a as u64) * (mag_b as u64);
    proof {
        assert(mag == (if signed16(a) * signed16(b) >= 0 {
            signed16(a) * signed16(b)
        } else {
            -(signed16(a) * signed16(b))
        })) by (nonlinear_arith)
            requires
                mag == mag_a * mag_b,
                mag_a == (if signed16(a) >= 0 {
                    signed16(a)
                } else {
                    -signed16(a)
                }),
                mag_b == (if signed16(b) >= 0 {
                    signed16(b)
                } else {
                    -signed16(b)
                }),
        ;
        assert(mag <= 0x40000000) by (nonlinear_arith)
            requires
                mag == mag_a * mag_b && mag_a <= 0x8000 && mag_b <= 0x8000,
        ;
    }
    let product: u32 = if neg && mag > 0 {
        (0x100000000u64 - mag) as u32
    } else {
        mag as u32
    };
    proof {
        let p = signed16(a) * signed16(b);
        assert(neg && p != 0 ==> p < 0) by (nonlinear_arith)
            requires
                p == signed16(a) * signed16(b),
                neg == ((signed16(a) < 0) != (signed16(b) < 0)),
        ;
        assert(!neg && p != 0 ==> p > 0) by (nonlinear_arith)
            requires
                p == signed16(a) * signed16(b),
                neg == ((signed16(a) < 0) != (signed16(b) < 0)),
        ;
        assert(product == (if p >= 0 {
            p
        } else {
            p + 0x100000000
        }));
        assert(product % 0x10000 == (p % 0x10000 + 0x10000) % 0x10000) by (nonlinear_arith)
            requires
                -0x80000000 <= p <= 0x80000000 && product == (if p >= 0 {
                    p
                } else {
                    p + 0x100000000
                }),
        ;
        assert((p % 0x10000 + 0x10000) % 0x10000 == p % 0x10000) by (nonlinear_arith);
        crate::mem::lemma_low_bits_u32();
    }
    let low: u16 = (product & 0xffff) as u16;
    let fits: bool = product < 0x8000 || product >= 0xFFFF8000;
    proof {
        assert(fits == (-0x8000 <= signed16(a) * signed16(b) <= 0x7fff));
    }
    let flags = szp16(low) | (if fits {
        0u16
    } else {
        CF | OF
    });
    (product, LOGIC_FLAGS, flags)
}

/// Unsigned byte divide of the 16-bit dividend: quotient and remainder, or
/// nothing on a zero divisor or a quotient too wide for a byte.
pub fn alu_div8(dividend: u16, divisor: u8) -> (r: Option<(u8, u8)>)
    ensures
        divisor == 0 ==> r is None,
        divisor != 0 ==> if dividend / (divisor as u16) > 0xFF {
            r is None
        } else {
            r == Some(
                (
                    (dividend as int / divisor as int) as u8,
                    (dividend as int % divisor as int) as u8,
                ),
            )
        },
{
    if divisor == 0 {
        return None;
    }
    let quotient = dividend / (divisor as u16);
    if quotient > 0xFF {
        return None;
    }
    let remainder = dividend % (divisor as u16);
    Some((quotient as u8, remainder as u8))
}

/// Unsigned word divide of the 32-bit dividend: quotient and remainder, or
/// nothing on a zero divisor or a quotient too wide for a word.
pub fn alu_div16(dividend: u32, divisor: u16) -> (r: Option<(u16, u16)>)
    ensures
        divisor == 0 ==> r is None,
        divisor != 0 ==> if dividend / (divisor as u32) > 0xFFFF {
            r is None
        } else {
            r == Some(
                (
                    (dividend as int / divisor as int) as u16,
                    (dividend as int % divisor as int) as u16,
                ),
            )
        },
{
    if divisor == 0 {
        return None;
    }
    let quotient = dividend / (divisor as u32);
    if quotient > 0xFFFF {
        return None;
    }
    let remainder = dividend % (divisor as u32);
    Some((quotient as u16, remainder as u16))
}

/// Signed byte divide of the 16-bit dividend, truncating toward zero:
/// quotient and remainder two's-complement encoded, or nothing on a zero
/// divisor or a quotient outside the signed byte range.
pub fn alu_idiv8(dividend: u16, divisor: u8) -> (r: Option<(u8, u8)>)
    ensures
        divisor == 0 ==> r is None,
        divisor != 0 ==> ({
            let q = trunc_div(signed16(dividend), signed8(divisor));
            let m = trunc_rem(signed16(dividend), signed8(divisor));
            if -0x80 <= q <= 0x7f {
                r == Some((to_signed8(q), to_signed8(m)))
            } else {
                r is None
            }
        }),
{
    if divisor == 0 {
        return None;
    }
    let mag_d: u16 = if dividend >= 0x8000 {
        (0x10000u32 - dividend as u32) as u16
    } else {
        dividend
    };
    let mag_s: u8 = if divisor >= 0x80 {
        (0x100u16 - divisor as u16) as u8
    } else {
        divisor
    };
    let q_mag: u16 = mag_d / (mag_s as u16);
    let m_mag: u16 = mag_d % (mag_s as u16);
    let q_neg: bool = (dividend >= 0x8000) != (divisor >= 0x80);
    let m_neg: bool = dividend >= 0x8000;
    proof {
        lemma_magnitude_div(signed16(dividend), signed8(divisor), mag_d as int, mag_s as int);
    }
    if q_neg {
        if q_mag > 0x80 {
            return None;
        }
    } else {
        if q_mag > 0x7f {
            return None;
        }
    }
    let q: u8 = if q_neg && q_mag > 0 {
        (0x100u16 - q_mag) as u8
    } else {
        q_mag as u8
    };
    let m: u8 = if m_neg && m_mag > 0 {
        (0x100u16 - m_mag) as u8
    } else {
        m_mag as u8
    };
    Some((q, m))
}

/// Signed word divide of the 32-bit dividend, truncating toward zero:
/// quotient and remainder two's-complement encoded, or nothing on a zero
/// divisor or a quotient outside the signed word range.
pub fn alu_idiv16(dividend: u32, divisor: u16) -> (r: Option<(u16, u16)>)
    ensures
        divisor == 0 ==> r is None,
        divisor != 0 ==> ({
            let q = trunc_div(signed32(dividend), signed16(divisor));
            let m = trunc_rem(signed32(dividend), signed16(divisor));
            if -0x8000 <= q <= 0x7fff {
                r == Some((to_signed16(q), to_signed16(m)))
            } else {
                r is None
            }
        }),
{
    if divisor == 0 {
        return None;
    }
    let mag_d: u32 = if dividend >= 0x80000000 {
        (0x100000000u64 - dividend as u64) as u32
    } else {
        dividend
    };
    let mag_s: u16 = if divisor >= 0x8000 {
        (0x10000u32 - divisor as u32) as u16
    } else {
        divisor
    };
    let q_mag: u32 = mag_d / (mag_s as u32);
    let m_mag: u32 = mag_d % (mag_s as u32);
    let q_neg: bool = (dividend >= 0x80000000) != (divisor >= 0x8000);
    let m_neg: bool = dividend >= 0x80000000;
    proof {
        lemma_magnitude_div(signed32(dividend), signed16(divisor), mag_d as int, mag_s as int);
    }
    if q_neg {
        if q_mag > 0x8000 {
            return None;
        }
    } else {
        if q_mag > 0x7fff {
            return None;
        }
    }
    let q: u16 = if q_neg && q_mag > 0 {
        (0x10000u32 - q_mag) as u16
    } else {
        q_mag as u16
    };
    let m: u16 = if m_neg && m_mag > 0 {
        (0x10000u32 - m_mag) as u16
    } else {
        m_mag as u16
    };
    Some((q, m))
}

/// The value of a 32-bit pair read as a signed quantity.
pub open spec fn signed32(v: u32) -> int {
    if v < 0x80000000 {
        v as int
    } else {
        v - 0x100000000
    }
}

/// Truncating signed division agrees with division of magnitudes: the
/// quotient is the quotient of magnitudes with the sign of the operands
/// combined, and the remainder carries the dividend's sign.
proof fn lemma_magnitude_div(a: int, b: int, mag_a: int, mag_b: int)
    requires
        b != 0,
        mag_a == if a >= 0 {
            a
        } else {
            -a
        },
        mag_b == if b >= 0 {
            b
        } else {
            -b
        },
    ensures
        trunc_div(a, b) == if (a >= 0) == (b >= 0) {
            mag_a / mag_b
        } else {
            -(mag_a / mag_b)
        },
        trunc_rem(a, b) == if a >= 0 {
            mag_a % mag_b
        } else {
            -(mag_a % mag_b)
        },
{
    vstd::arithmetic::div_mod::lemma_fundamental_div_mod(mag_a, mag_b);
    let qm = mag_a / mag_b;
    let rm = mag_a % mag_b;
    if a >= 0 {
        if b >= 0 {
        } else {
            assert(b * -qm == mag_b * qm) by (nonlinear_arith)
                requires
                    b == -mag_b,
            ;
        }
    } else {
        if b >= 0 {
            assert(b * -qm == -(mag_b * qm)) by (nonlinear_arith)
                requires
                    b == mag_b,
            ;
        } else {
            assert(b * qm == -(mag_b * qm)) by (nonlinear_arith)
                requires
                    b == -mag_b,
            ;
        }
    }
}


/// The byte result of a logical left shift by the full, unmasked count.
pub open spec fn shl_result8(d: u8, n: u8) -> u8 {
    if n < 8 {
        d << n
    } else {
        0
    }
}

/// The carry after a left shift: the last bit pushed out of the top.
pub open spec fn shl_cf8(d: u8, n: u8) -> bool
    recommends
        n >= 1,
{
    if n <= 8 {
        (d >> ((8 - n) as u8)) & 1 == 1
    } else {
        false
    }
}

/// The carry and overflow bits a byte left shift sets; overflow is defined
/// only for a count of one, as the top bit against the carry.
pub open spec fn shl_flags8(d: u8, n: u8) -> u16 {
    (if shl_cf8(d, n) {
        CF
    } else {
        0
    }) | (if n == 1 && (shl_result8(d, n) >= 0x80) != shl_cf8(d, n) {
        OF
    } else {
        0
    })
}

/// The byte result of a logical right shift by the full, unmasked count.
pub open spec fn shr_result8(d: u8, n: u8) -> u8 {
    if n < 8 {
        d >> n
    } else {
        0
    }
}

/// The carry after a right shift: the last bit pushed out of the bottom.
pub open spec fn shr_cf8(d: u8, n: u8) -> bool
    recommends
        n >= 1,
{
    if n <= 8 {
        (d >> ((n - 1) as u8)) & 1 == 1
    } else {
        false
    }
}

/// The carry and overflow bits a byte right shift sets; overflow for a
/// count of one is the old top bit.
pub open spec fn shr_flags8(d: u8, n: u8) -> u16 {
    (if shr_cf8(d, n) {
        CF
    } else {
        0
    }) | (if n == 1 && d >= 0x80 {
        OF
    } else {
        0
    })
}

/// The byte result of an arithmetic right shift: the sign fills in from the
/// top.
pub open spec fn sar_result8(d: u8, n: u8) -> u8 {
    if d < 0x80 {
        if n < 8 {
            d >> n
        } else {
            0
        }
    } else {
        if n < 8 {
            (d >> n) | ((0xffu8) << ((8 - n) as u8))
        } else {
            0xff
        }
    }
}

/// The carry after an arithmetic right shift.
pub open spec fn sar_cf8(d: u8, n: u8) -> bool
    recommends
        n >= 1,
{
    if n <= 8 {
        (d >> ((n - 1) as u8)) & 1 == 1
    } else {
        d >= 0x80
    }
}

/// The carry and overflow bits a byte arithmetic right shift sets; a count
/// of one clears overflow.
pub open spec fn sar_flags8(d: u8, n: u8) -> u16 {
    if sar_cf8(d, n) {
        CF
    } else {
        0
    }
}

/// The byte result of rotating left by the count, no carry involved.
pub open spec fn rol_result8(d: u8, n: u8) -> u8 {
    if n % 8 == 0 {
        d
    } else {
        (d << ((n % 8) as u8)) | (d >> ((8 - n % 8) as u8))
    }
}

/// The carry and overflow bits a byte rotate-left sets: the carry is the
/// bit that wrapped into the bottom.
pub open spec fn rol_flags8(d: u8, n: u8) -> u16 {
    (if rol_result8(d, n) & 1 == 1 {
        CF
    } else {
        0
    }) | (if n == 1 && (rol_result8(d, n) >= 0x80) != (rol_result8(d, n) & 1 == 1) {
        OF
    } else {
        0
    })
}

/// The byte result of rotating right by the count, no carry involved.
pub open spec fn ror_result8(d: u8, n: u8) -> u8 {
    if n % 8 == 0 {
        d
    } else {
        (d >> ((n % 8) as u8)) | (d << ((8 - n % 8) as u8))
    }
}

/// The carry and overflow bits a byte rotate-right sets: the carry is the
/// bit that wrapped into the top, and overflow for a count of one compares
/// the top two result bits.
pub open spec fn ror_flags8(d: u8, n: u8) -> u16 {
    (if ror_result8(d, n) >= 0x80 {
        CF
    } else {
        0
    }) | (if n == 1 && (ror_result8(d, n) >= 0x80) != ((ror_result8(d, n) >> 6) & 1 == 1) {
        OF
    } else {
        0
    })
}

/// The nine-bit value of a byte together with the carry on top.
pub open spec fn with_carry9(d: u8, carry: bool) -> u16 {
    (d as u16) | (if carry {
        0x100
    } else {
        0
    })
}

/// A nine-bit rotate left of a carry-extended byte.
pub open spec fn rot9_left(v: u16, k: u16) -> u16
    recommends
        v < 0x200,
        k < 9,
{
    ((v << k) | (v >> ((9 - k) as u16))) & 0x1ff
}

/// A nine-bit rotate right of a carry-extended byte.
pub open spec fn rot9_right(v: u16, k: u16) -> u16
    recommends
        v < 0x200,
        k < 9,
{
    ((v >> k) | (v << ((9 - k) as u16))) & 0x1ff
}

/// The seventeen-bit value of a word together with the carry on top.
pub open spec fn with_carry17(d: u16, carry: bool) -> u32 {
    (d as u32) | (if carry {
        0x10000
    } else {
        0
    })
}

/// A seventeen-bit rotate left of a carry-extended word.
pub open spec fn rot17_left(v: u32, k: u32) -> u32
    recommends
        v < 0x20000,
        k < 17,
{
    ((v << k) | (v >> ((17 - k) as u32))) & 0x1ffff
}

/// A seventeen-bit rotate right of a carry-extended word.
pub open spec fn rot17_right(v: u32, k: u32) -> u32
    recommends
        v < 0x20000,
        k < 17,
{
    ((v >> k) | (v << ((17 - k) as u32))) & 0x1ffff
}

/// The word result of a logical left shift by the full, unmasked count.
pub open spec fn shl_result16(d: u16, n: u8) -> u16 {
    if n < 16 {
        d << (n as u16)
    } else {
        0
    }
}

/// The carry after a word left shift.
pub open spec fn shl_cf16(d: u16, n: u8) -> bool
    recommends
        n >= 1,
{
    if n <= 16 {
        (d >> ((16 - n) as u16)) & 1 == 1
    } else {
        false
    }
}

/// The carry and overflow bits a word left shift sets.
pub open spec fn shl_flags16(d: u16, n: u8) -> u16 {
    (if shl_cf16(d, n) {
        CF
    } else {
        0
    }) | (if n == 1 && (shl_result16(d, n) >= 0x8000) != shl_cf16(d, n) {
        OF
    } else {
        0
    })
}

/// The word result of a logical right shift by the full, unmasked count.
pub open spec fn shr_result16(d: u16, n: u8) -> u16 {
    if n < 16 {
        d >> (n as u16)
    } else {
        0
    }
}

/// The carry after a word right shift.
pub open spec fn shr_cf16(d: u16, n: u8) -> bool
    recommends
        n >= 1,
{
    if n <= 16 {
        (d >> ((n - 1) as u16)) & 1 == 1
    } else {
        false
    }
}

/// The carry and overflow bits a word right shift sets.
pub open spec fn shr_flags16(d: u16, n: u8) -> u16 {
    (if shr_cf16(d, n) {
        CF
    } else {
        0
    }) | (if n == 1 && d >= 0x8000 {
        OF
    } else {
        0
    })
}

/// The word result of an arithmetic right shift.
pub open spec fn sar_result16(d: u16, n: u8) -> u16 {
    if d < 0x8000 {
        if n < 16 {
            d >> (n as u16)
        } else {
            0
        }
    } else {
        if n < 16 {
            (d >> (n as u16)) | ((0xffffu16) << ((16 - n) as u16))
        } else {
            0xffff
        }
    }
}

/// The carry after a word arithmetic right shift.
pub open spec fn sar_cf16(d: u16, n: u8) -> bool
    recommends
        n >= 1,
{
    if n <= 16 {
        (d >> ((n - 1) as u16)) & 1 == 1
    } else {
        d >= 0x8000
    }
}

/// The carry and overflow bits a word arithmetic right shift sets.
pub open spec fn sar_flags16(d: u16, n: u8) -> u16 {
    if sar_cf16(d, n) {
        CF
    } else {
        0
    }
}

/// The word result of rotating left by the count.
pub open spec fn rol_result16(d: u16, n: u8) -> u16 {
    if n % 16 == 0 {
        d
    } else {
        (d << ((n % 16) as u16)) | (d >> ((16 - n % 16) as u16))
    }
}

/// The carry and overflow bits a word rotate-left sets.
pub open spec fn rol_flags16(d: u16, n: u8) -> u16 {
    (if rol_result16(d, n) & 1 == 1 {
        CF
    } else {
        0
    }) | (if n == 1 && (rol_result16(d, n) >= 0x8000) != (rol_result16(d, n) & 1 == 1) {
        OF
    } else {
        0
    })
}

/// The word result of rotating right by the count.
pub open spec fn ror_result16(d: u16, n: u8) -> u16 {
    if n % 16 == 0 {
        d
    } else {
        (d >> ((n % 16) as u16)) | (d << ((16 - n % 16) as u16))
    }
}

/// The carry and overflow bits a word rotate-right sets.
pub open spec fn ror_flags16(d: u16, n: u8) -> u16 {
    (if ror_result16(d, n) >= 0x8000 {
        CF
    } else {
        0
    }) | (if n == 1 && (ror_result16(d, n) >= 0x8000) != ((ror_result16(d, n) >> 14) & 1 == 1) {
        OF
    } else {
        0
    })
}

/// Whether a byte has an even number of set bits.
pub fn parity8(v: u8) -> (r: bool)
    ensures
        r == parity_even(v),
{
    let x = v ^ (v >> 4);
    let x = x ^ (x >> 2);
    let x = x ^ (x >> 1);
    let r = (x & 1) == 0;
    proof {
        assert(r == (popcount8(v) % 2 == 0)) by (bit_vector)
            requires
                r == ((((v ^ (v >> 4)) ^ ((v ^ (v >> 4)) >> 2)) ^ (((v ^ (v >> 4)) ^ ((v ^ (v
                    >> 4)) >> 2)) >> 1)) & 1 == 0),
        ;
    }
    r
}

/// The sign, zero and parity bits of a byte result.
pub fn szp8(r: u8) -> (f: u16)
    ensures
        f == szp_flags8(r),
{
    let sf: u16 = if r >= 0x80 {
        SF
    } else {
        0
    };
    let zf: u16 = if r == 0 {
        ZF
    } else {
        0
    };
    let pf: u16 = if parity8(r) {
        PF
    } else {
        0
    };
    sf | zf | pf
}

/// The sign, zero and parity bits of a word result.
pub fn szp16(r: u16) -> (f: u16)
    ensures
        f == szp_flags16(r),
{
    let sf: u16 = if r >= 0x8000 {
        SF
    } else {
        0
    };
    let zf: u16 = if r == 0 {
        ZF
    } else {
        0
    };
    let pf: u16 = if parity8((r & 0xff) as u8) {
        PF
    } else {
        0
    };
    sf | zf | pf
}

/// Byte addition with carry-in: the result, the flag bits to clear and the
/// flag bits to set.
pub fn alu_add8(src: u8, dest: u8, carry: bool) -> (r: (u8, u16, u16))
    ensures
        r.0 == add_result8(src, dest, carry),
        r.1 == ARITH_FLAGS,
        r.2 == add_flags8(src, dest, carry),
{
    let c: u16 = if carry {
        1
    } else {
        0
    };
    let sum: u16 = src as u16 + dest as u16 + c;
    proof {
        crate::mem::lemma_low_bits_u16();
    }
    let result: u8 = (sum & 0xff) as u8;
    let cf: bool = sum > 0xff;
    let af: bool = (src & 0xf) + (dest & 0xf) + (c as u8) > 0xf;
    let s_neg = src >= 0x80;
    let d_neg = dest >= 0x80;
    let r_neg = result >= 0x80;
    let of: bool = s_neg == d_neg && r_neg != s_neg;
    proof {
        assert(of == !(-0x80 <= signed8(src) + signed8(dest) + carry_in(carry) <= 0x7f));
    }
    let flags = szp8(result) | (if cf {
        CF
    } else {
        0u16
    }) | (if af {
        AF
    } else {
        0u16
    }) | (if of {
        OF
    } else {
        0u16
    });
    (result, ARITH_FLAGS, flags)
}

/// Byte subtraction with borrow-in: the result, the flag bits to clear and
/// the flag bits to set.
pub fn alu_sub8(src: u8, dest: u8, carry: bool) -> (r: (u8, u16, u16))
    ensures
        r.0 == sub_result8(src, dest, carry),
        r.1 == ARITH_FLAGS,
        r.2 == sub_flags8(src, dest, carry),
{
    let c: u16 = if carry {
        1
    } else {
        0
    };
    let take: u16 = src as u16 + c;
    let diff: u16 = (dest as u16 + 0x100) - take;
    proof {
        crate::mem::lemma_low_bits_u16();
        assert((dest + 0x100 - take) % 0x100 == (dest - src - carry_in(carry)) % 0x100)
            by (nonlinear_arith)
            requires
                take == src + carry_in(carry) && 0 <= take <= 0x100 && 0 <= dest < 0x100,
        ;
    }
    let result: u8 = (diff & 0xff) as u8;
    let cf: bool = take > dest as u16;
    let af: bool = (src & 0xf) + (c as u8) > (dest & 0xf);
    let s_neg = src >= 0x80;
    let d_neg = dest >= 0x80;
    let r_neg = result >= 0x80;
    let of: bool = s_neg != d_neg && r_neg != d_neg;
    proof {
        assert(of == !(-0x80 <= signed8(dest) - signed8(src) - carry_in(carry) <= 0x7f));
    }
    let flags = szp8(result) | (if cf {
        CF
    } else {
        0u16
    }) | (if af {
        AF
    } else {
        0u16
    }) | (if of {
        OF
    } else {
        0u16
    });
    (result, ARITH_FLAGS, flags)
}

/// Word addition with carry-in: the result, the flag bits to clear and the
/// flag bits to set.
pub fn alu_add16(src: u16, dest: u16, carry: bool) -> (r: (u16, u16, u16))
    ensures
        r.0 == add_result16(src, dest, carry),
        r.1 == ARITH_FLAGS,
        r.2 == add_flags16(src, dest, carry),
{
    let c: u32 = if carry {
        1
    } else {
        0
    };
    let sum: u32 = src as u32 + dest as u32 + c;
    proof {
        crate::mem::lemma_low_bits_u16();
        crate::mem::lemma_low_bits_u32();
    }
    let result: u16 = (sum & 0xffff) as u16;
    let cf: bool = sum > 0xffff;
    let af: bool = (src & 0xf) + (dest & 0xf) + (c as u16) > 0xf;
    let s_neg = src >= 0x8000;
    let d_neg = dest >= 0x8000;
    let r_neg = result >= 0x8000;
    let of: bool = s_neg == d_neg && r_neg != s_neg;
    proof {
        assert(of == !(-0x8000 <= signed16(src) + signed16(dest) + carry_in(carry) <= 0x7fff));
    }
    let flags = szp16(result) | (if cf {
        CF
    } else {
        0u16
    }) | (if af {
        AF
    } else {
        0u16
    }) | (if of {
        OF
    } else {
        0u16
    });
    (result, ARITH_FLAGS, flags)
}

/// Word subtraction with borrow-in: the result, the flag bits to clear and
/// the flag bits to set.
pub fn alu_sub16(src: u16, dest: u16, carry: bool) -> (r: (u16, u16, u16))
    ensures
        r.0 == sub_result16(src, dest, carry),
        r.1 == ARITH_FLAGS,
        r.2 == sub_flags16(src, dest, carry),
{
    let c: u32 = if carry {
        1
    } else {
        0
    };
    let take: u32 = src as u32 + c;
    let diff: u32 = (dest as u32 + 0x10000) - take;
    proof {
        crate::mem::lemma_low_bits_u16();
        crate::mem::lemma_low_bits_u32();
        assert((dest + 0x10000 - take) % 0x10000 == (dest - src - carry_in(carry)) % 0x10000)
            by (nonlinear_arith)
            requires
                take == src + carry_in(carry) && 0 <= take <= 0x10000 && 0 <= dest < 0x10000,
        ;
    }
    let result: u16 = (diff & 0xffff) as u16;
    let cf: bool = take > dest as u32;
    let af: bool = (src & 0xf) + (c as u16) > (dest & 0xf);
    let s_neg = src >= 0x8000;
    let d_neg = dest >= 0x8000;
    let r_neg = result >= 0x8000;
    let of: bool = s_neg != d_neg && r_neg != d_neg;
    proof {
        assert(of == !(-0x8000 <= signed16(dest) - signed16(src) - carry_in(carry) <= 0x7fff));
    }
    let flags = szp16(result) | (if cf {
        CF
    } else {
        0u16
    }) | (if af {
        AF
    } else {
        0u16
    }) | (if of {
        OF
    } else {
        0u16
    });
    (result, ARITH_FLAGS, flags)
}

/// Byte left shift by an unmasked count of at least one: the result and the
/// flag bits to clear and to set.
pub fn alu_shl8(d: u8, n: u8) -> (r: (u8, u16, u16))
    requires
        n >= 1,
    ensures
        r.0 == shl_result8(d, n),
        r.1 == CF | OF,
        r.2 == shl_flags8(d, n),
{
    let result: u8 = if n < 8 {
        d << n
    } else {
        0
    };
    let cf: bool = if n <= 8 {
        (d >> (8 - n)) & 1 == 1
    } else {
        false
    };
    let of: bool = n == 1 && (result >= 0x80) != cf;
    (
        result,
        CF | OF,
        (if cf {
            CF
        } else {
            0u16
        }) | (if of {
            OF
        } else {
            0u16
        }),
    )
}

/// Byte logical right shift: the result and the flag bits to clear and set.
pub fn alu_shr8(d: u8, n: u8) -> (r: (u8, u16, u16))
    requires
        n >= 1,
    ensures
        r.0 == shr_result8(d, n),
        r.1 == CF | OF,
        r.2 == shr_flags8(d, n),
{
    let result: u8 = if n < 8 {
        d >> n
    } else {
        0
    };
    let cf: bool = if n <= 8 {
        (d >> (n - 1)) & 1 == 1
    } else {
        false
    };
    let of: bool = n == 1 && d >= 0x80;
    (
        result,
        CF | OF,
        (if cf {
            CF
        } else {
            0u16
        }) | (if of {
            OF
        } else {
            0u16
        }),
    )
}

/// Byte arithmetic right shift: the result and the flag bits to clear and
/// set.
pub fn alu_sar8(d: u8, n: u8) -> (r: (u8, u16, u16))
    requires
        n >= 1,
    ensures
        r.0 == sar_result8(d, n),
        r.1 == CF | OF,
        r.2 == sar_flags8(d, n),
{
    let result: u8 = if d < 0x80 {
        if n < 8 {
            d >> n
        } else {
            0
        }
    } else {
        if n < 8 {
            (d >> n) | (0xffu8 << (8 - n))
        } else {
            0xff
        }
    };
    let cf: bool = if n <= 8 {
        (d >> (n - 1)) & 1 == 1
    } else {
        d >= 0x80
    };
    (
        result,
        CF | OF,
        if cf {
            CF
        } else {
            0u16
        },
    )
}

/// Byte rotate left: the result and the flag bits to clear and set.
pub fn alu_rol8(d: u8, n: u8) -> (r: (u8, u16, u16))
    requires
        n >= 1,
    ensures
        r.0 == rol_result8(d, n),
        r.1 == CF | OF,
        r.2 == rol_flags8(d, n),
{
    let k = n % 8;
    let result: u8 = if k == 0 {
        d
    } else {
        (d << k) | (d >> (8 - k))
    };
    let cf: bool = result & 1 == 1;
    let of: bool = n == 1 && (result >= 0x80) != cf;
    (
        result,
        CF | OF,
        (if cf {
            CF
        } else {
            0u16
        }) | (if of {
            OF
        } else {
            0u16
        }),
    )
}

/// Byte rotate right: the result and the flag bits to clear and set.
pub fn alu_ror8(d: u8, n: u8) -> (r: (u8, u16, u16))
    requires
        n >= 1,
    ensures
        r.0 == ror_result8(d, n),
        r.1 == CF | OF,
        r.2 == ror_flags8(d, n),
{
    let k = n % 8;
    let result: u8 = if k == 0 {
        d
    } else {
        (d >> k) | (d << (8 - k))
    };
    let cf: bool = result >= 0x80;
    let of: bool = n == 1 && cf != ((result >> 6) & 1 == 1);
    (
        result,
        CF | OF,
        (if cf {
            CF
        } else {
            0u16
        }) | (if of {
            OF
        } else {
            0u16
        }),
    )
}

/// Byte rotate left through the carry, a nine-bit rotation: the result and
/// the flag bits to clear and set.
pub fn alu_rcl8(d: u8, n: u8, prev_cf: bool) -> (r: (u8, u16, u16))
    requires
        n >= 1,
    ensures
        ({
            let v = rot9_left(with_carry9(d, prev_cf), (n % 9) as u16);
            &&& r.0 == (v & 0xff) as u8
            &&& r.1 == CF | OF
            &&& r.2 == (if v >= 0x100 {
                CF
            } else {
                0
            }) | (if n == 1 && ((v & 0xff >= 0x80) != (v >= 0x100)) {
                OF
            } else {
                0
            })
        }),
{
    let k: u16 = (n % 9) as u16;
    let v0: u16 = (d as u16) | (if prev_cf {
        0x100u16
    } else {
        0u16
    });
    let v: u16 = ((v0 << k) | (v0 >> (9 - k))) & 0x1ff;
    proof {
        crate::mem::lemma_low_bits_u16();
    }
    let result: u8 = (v & 0xff) as u8;
    let cf: bool = v >= 0x100;
    let of: bool = n == 1 && ((result >= 0x80) != cf);
    (
        result,
        CF | OF,
        (if cf {
            CF
        } else {
            0u16
        }) | (if of {
            OF
        } else {
            0u16
        }),
    )
}

/// Byte rotate right through the carry, a nine-bit rotation: the result and
/// the flag bits to clear and set. Overflow for a count of one compares the
/// old top bit with the old carry.
pub fn alu_rcr8(d: u8, n: u8, prev_cf: bool) -> (r: (u8, u16, u16))
    requires
        n >= 1,
    ensures
        ({
            let v = rot9_right(with_carry9(d, prev_cf), (n % 9) as u16);
            &&& r.0 == (v & 0xff) as u8
            &&& r.1 == CF | OF
            &&& r.2 == (if v >= 0x100 {
                CF
            } else {
                0
            }) | (if n == 1 && ((d >= 0x80) != prev_cf) {
                OF
            } else {
                0
            })
        }),
{
    let k: u16 = (n % 9) as u16;
    let v0: u16 = (d as u16) | (if prev_cf {
        0x100u16
    } else {
        0u16
    });
    let v: u16 = ((v0 >> k) | (v0 << (9 - k))) & 0x1ff;
    proof {
        crate::mem::lemma_low_bits_u16();
    }
    let result: u8 = (v & 0xff) as u8;
    let cf: bool = v >= 0x100;
    let of: bool = n == 1 && ((d >= 0x80) != prev_cf);
    (
        result,
        CF | OF,
        (if cf {
            CF
        } else {
            0u16
        }) | (if of {
            OF
        } else {
            0u16
        }),
    )
}

/// Word left shift by an unmasked count of at least one.
pub fn alu_shl16(d: u16, n: u8) -> (r: (u16, u16, u16))
    requires
        n >= 1,
    ensures
        r.0 == shl_result16(d, n),
        r.1 == CF | OF,
        r.2 == shl_flags16(d, n),
{
    let result: u16 = if n < 16 {
        d << (n as u16)
    } else {
        0
    };
    let cf: bool = if n <= 16 {
        (d >> ((16 - n) as u16)) & 1 == 1
    } else {
        false
    };
    let of: bool = n == 1 && (result >= 0x8000) != cf;
    (
        result,
        CF | OF,
        (if cf {
            CF
        } else {
            0u16
        }) | (if of {
            OF
        } else {
            0u16
        }),
    )
}

/// Word logical right shift.
pub fn alu_shr16(d: u16, n: u8) -> (r: (u16, u16, u16))
    requires
        n >= 1,
    ensures
        r.0 == shr_result16(d, n),
        r.1 == CF | OF,
        r.2 == shr_flags16(d, n),
{
    let result: u16 = if n < 16 {
        d >> (n as u16)
    } else {
        0
    };
    let cf: bool = if n <= 16 {
        (d >> ((n - 1) as u16)) & 1 == 1
    } else {
        false
    };
    let of: bool = n == 1 && d >= 0x8000;
    (
        result,
        CF | OF,
        (if cf {
            CF
        } else {
            0u16
        }) | (if of {
            OF
        } else {
            0u16
        }),
    )
}

/// Word arithmetic right shift.
pub fn alu_sar16(d: u16, n: u8) -> (r: (u16, u16, u16))
    requires
        n >= 1,
    ensures
        r.0 == sar_result16(d, n),
        r.1 == CF | OF,
        r.2 == sar_flags16(d, n),
{
    let result: u16 = if d < 0x8000 {
        if n < 16 {
            d >> (n as u16)
        } else {
            0
        }
    } else {
        if n < 16 {
            (d >> (n as u16)) | (0xffffu16 << ((16 - n) as u16))
        } else {
            0xffff
        }
    };
    let cf: bool = if n <= 16 {
        (d >> ((n - 1) as u16)) & 1 == 1
    } else {
        d >= 0x8000
    };
    (
        result,
        CF | OF,
        if cf {
            CF
        } else {
            0u16
        },
    )
}

/// Word rotate left.
pub fn alu_rol16(d: u16, n: u8) -> (r: (u16, u16, u16))
    requires
        n >= 1,
    ensures
        r.0 == rol_result16(d, n),
        r.1 == CF | OF,
        r.2 == rol_flags16(d, n),
{
    let k: u16 = (n % 16) as u16;
    let result: u16 = if k == 0 {
        d
    } else {
        (d << k) | (d >> (16 - k))
    };
    let cf: bool = result & 1 == 1;
    let of: bool = n == 1 && (result >= 0x8000) != cf;
    (
        result,
        CF | OF,
        (if cf {
            CF
        } else {
            0u16
        }) | (if of {
            OF
        } else {
            0u16
        }),
    )
}

/// Word rotate right.
pub fn alu_ror16(d: u16, n: u8) -> (r: (u16, u16, u16))
    requires
        n >= 1,
    ensures
        r.0 == ror_result16(d, n),
        r.1 == CF | OF,
        r.2 == ror_flags16(d, n),
{
    let k: u16 = (n % 16) as u16;
    let result: u16 = if k == 0 {
        d
    } else {
        (d >> k) | (d << (16 - k))
    };
    let cf: bool = result >= 0x8000;
    let of: bool = n == 1 && cf != ((result >> 14) & 1 == 1);
    (
        result,
        CF | OF,
        (if cf {
            CF
        } else {
            0u16
        }) | (if of {
            OF
        } else {
            0u16
        }),
    )
}

/// Word rotate left through the carry, a seventeen-bit rotation.
pub fn alu_rcl16(d: u16, n: u8, prev_cf: bool) -> (r: (u16, u16, u16))
    requires
        n >= 1,
    ensures
        ({
            let v = rot17_left(with_carry17(d, prev_cf), (n % 17) as u32);
            &&& r.0 == (v & 0xffff) as u16
            &&& r.1 == CF | OF
            &&& r.2 == (if v >= 0x10000 {
                CF
            } else {
                0
            }) | (if n == 1 && ((v & 0xffff >= 0x8000) != (v >= 0x10000)) {
                OF
            } else {
                0
            })
        }),
{
    let k: u32 = (n % 17) as u32;
    let v0: u32 = (d as u32) | (if prev_cf {
        0x10000u32
    } else {
        0u32
    });
    let v: u32 = ((v0 << k) | (v0 >> (17 - k))) & 0x1ffff;
    proof {
        crate::mem::lemma_low_bits_u32();
    }
    let result: u16 = (v & 0xffff) as u16;
    let cf: bool = v >= 0x10000;
    let of: bool = n == 1 && ((result >= 0x8000) != cf);
    (
        result,
        CF | OF,
        (if cf {
            CF
        } else {
            0u16
        }) | (if of {
            OF
        } else {
            0u16
        }),
    )
}

/// Word rotate right through the carry, a seventeen-bit rotation.
pub fn alu_rcr16(d: u16, n: u8, prev_cf: bool) -> (r: (u16, u16, u16))
    requires
        n >= 1,
    ensures
        ({
            let v = rot17_right(with_carry17(d, prev_cf), (n % 17) as u32);
            &&& r.0 == (v & 0xffff) as u16
            &&& r.1 == CF | OF
            &&& r.2 == (if v >= 0x10000 {
                CF
            } else {
                0
            }) | (if n == 1 && ((d >= 0x8000) != prev_cf) {
                OF
            } else {
                0
            })
        }),
{
    let k: u32 = (n % 17) as u32;
    let v0: u32 = (d as u32) | (if prev_cf {
        0x10000u32
    } else {
        0u32
    });
    let v: u32 = ((v0 >> k) | (v0 << (17 - k))) & 0x1ffff;
    proof {
        crate::mem::lemma_low_bits_u32();
    }
    let result: u16 = (v & 0xffff) as u16;
    let cf: bool = v >= 0x10000;
    let of: bool = n == 1 && ((d >= 0x8000) != prev_cf);
    (
        result,
        CF | OF,
        (if cf {
            CF
        } else {
            0u16
        }) | (if of {
            OF
        } else {
            0u16
        }),
    )
}

/// The byte addition flag vector, bit by bit: carry is unsigned overflow,
/// overflow follows the classic sign-mask formula, auxiliary carry is the
/// carry out of bit 3 (the exclusive-or form), sign is the top result bit,
/// zero and parity read the result, and no other flag bit moves.
pub proof fn lemma_add_flags_table8(f0: u16, s: u8, d: u8, c: bool)
    ensures
        ({
            let r = add_result8(s, d, c);
            let f1 = blit(f0, ARITH_FLAGS, add_flags8(s, d, c));
            &&& (f1 & CF != 0 <==> s + d + carry_in(c) > 0xff)
            &&& (f1 & OF != 0 <==> ((!(s ^ d)) & (s ^ r)) & 0x80 != 0)
            &&& (f1 & AF != 0 <==> ((s ^ d) ^ r) & 0x10 != 0)
            &&& (f1 & SF != 0 <==> r >= 0x80)
            &&& (f1 & ZF != 0 <==> r == 0)
            &&& (f1 & PF != 0 <==> parity_even(r))
            &&& f1 & !ARITH_FLAGS == f0 & !ARITH_FLAGS
        }),
{
    let r = add_result8(s, d, c);
    let cc: u8 = if c {
        1
    } else {
        0
    };
    let s1: u16 = if r >= 0x80 {
        SF
    } else {
        0
    };
    let z1: u16 = if r == 0 {
        ZF
    } else {
        0
    };
    let p1: u16 = if parity_even(r) {
        PF
    } else {
        0
    };
    let cfb: u16 = if s + d + carry_in(c) > 0xff {
        CF
    } else {
        0
    };
    let afb: u16 = if (s & 0xf) + (d & 0xf) + carry_in(c) > 0xf {
        AF
    } else {
        0
    };
    let ofb: u16 = if !(-0x80 <= signed8(s) + signed8(d) + carry_in(c) <= 0x7f) {
        OF
    } else {
        0
    };
    assert(add_flags8(s, d, c) == ((s1 | z1 | p1) | cfb) | afb | ofb);
    let f1 = blit(f0, ARITH_FLAGS, add_flags8(s, d, c));
    assert(f1 & 0x1 == cfb && f1 & 0x800 == ofb && f1 & 0x10 == afb && f1 & 0x80 == s1 && f1
        & 0x40 == z1 && f1 & 0x4 == p1 && f1 & !0x8d5 == f0 & !0x8d5) by (bit_vector)
        requires
            f1 == (f0 & !0x8d5) | ((((s1 | z1 | p1) | cfb) | afb) | ofb),
            s1 == 0 || s1 == 0x80,
            z1 == 0 || z1 == 0x40,
            p1 == 0 || p1 == 0x4,
            cfb == 0 || cfb == 0x1,
            afb == 0 || afb == 0x10,
            ofb == 0 || ofb == 0x800,
    ;
    assert((((!(s ^ d)) & (s ^ r)) & 0x80 != 0) == ((s < 0x80) == (d < 0x80) && (r < 0x80) != (s
        < 0x80))) by (bit_vector);
    assert((((s ^ d) ^ r) & 0x10 != 0) == ((s & 0xf) + (d & 0xf) + cc > 0xf)) by (bit_vector)
        requires
            cc <= 1 && r as int == (s + d + cc) % 0x100,
    ;
}

/// The byte subtraction flag vector, bit by bit, with the subtraction
/// forms of the overflow and auxiliary-borrow formulas.
pub proof fn lemma_sub_flags_table8(f0: u16, s: u8, d: u8, c: bool)
    ensures
        ({
            let r = sub_result8(s, d, c);
            let f1 = blit(f0, ARITH_FLAGS, sub_flags8(s, d, c));
            &&& (f1 & CF != 0 <==> s + carry_in(c) > d)
            &&& (f1 & OF != 0 <==> ((s ^ d) & (d ^ r)) & 0x80 != 0)
            &&& (f1 & AF != 0 <==> ((s ^ d) ^ r) & 0x10 != 0)
            &&& (f1 & SF != 0 <==> r >= 0x80)
            &&& (f1 & ZF != 0 <==> r == 0)
            &&& (f1 & PF != 0 <==> parity_even(r))
            &&& f1 & !ARITH_FLAGS == f0 & !ARITH_FLAGS
        }),
{
    let r = sub_result8(s, d, c);
    let cc: u8 = if c {
        1
    } else {
        0
    };
    let s1: u16 = if r >= 0x80 {
        SF
    } else {
        0
    };
    let z1: u16 = if r == 0 {
        ZF
    } else {
        0
    };
    let p1: u16 = if parity_even(r) {
        PF
    } else {
        0
    };
    let cfb: u16 = if s + carry_in(c) > d {
        CF
    } else {
        0
    };
    let afb: u16 = if (s & 0xf) + carry_in(c) > (d & 0xf) {
        AF
    } else {
        0
    };
    let ofb: u16 = if !(-0x80 <= signed8(d) - signed8(s) - carry_in(c) <= 0x7f) {
        OF
    } else {
        0
    };
    assert(sub_flags8(s, d, c) == ((s1 | z1 | p1) | cfb) | afb | ofb);
    let f1 = blit(f0, ARITH_FLAGS, sub_flags8(s, d, c));
    assert(f1 & 0x1 == cfb && f1 & 0x800 == ofb && f1 & 0x10 == afb && f1 & 0x80 == s1 && f1
        & 0x40 == z1 && f1 & 0x4 == p1 && f1 & !0x8d5 == f0 & !0x8d5) by (bit_vector)
        requires
            f1 == (f0 & !0x8d5) | ((((s1 | z1 | p1) | cfb) | afb) | ofb),
            s1 == 0 || s1 == 0x80,
            z1 == 0 || z1 == 0x40,
            p1 == 0 || p1 == 0x4,
            cfb == 0 || cfb == 0x1,
            afb == 0 || afb == 0x10,
            ofb == 0 || ofb == 0x800,
    ;
    assert((((s ^ d) & (d ^ r)) & 0x80 != 0) == ((s < 0x80) != (d < 0x80) && (r < 0x80) != (d
        < 0x80))) by (bit_vector);
    assert((((s ^ d) ^ r) & 0x10 != 0) == ((s & 0xf) + cc > (d & 0xf))) by (bit_vector)
        requires
            cc <= 1 && r as int == (d - s - cc) % 0x100,
    ;
}

/// The logic-operation flag vector of byte width: carry and overflow come
/// out clear, sign, zero and parity read the result, and the auxiliary
/// carry, like every other remaining bit, is untouched.
pub proof fn lemma_logic_flags_table8(f0: u16, r: u8)
    ensures
        ({
            let f1 = blit(f0, LOGIC_FLAGS, szp_flags8(r));
            &&& f1 & CF == 0
            &&& f1 & OF == 0
            &&& (f1 & SF != 0 <==> r >= 0x80)
            &&& (f1 & ZF != 0 <==> r == 0)
            &&& (f1 & PF != 0 <==> parity_even(r))
            &&& f1 & !LOGIC_FLAGS == f0 & !LOGIC_FLAGS
        }),
{
    let s1: u16 = if r >= 0x80 {
        SF
    } else {
        0
    };
    let z1: u16 = if r == 0 {
        ZF
    } else {
        0
    };
    let p1: u16 = if parity_even(r) {
        PF
    } else {
        0
    };
    assert(szp_flags8(r) == (s1 | z1) | p1);
    let f1 = blit(f0, LOGIC_FLAGS, szp_flags8(r));
    assert(f1 & 0x1 == 0 && f1 & 0x800 == 0 && f1 & 0x80 == s1 && f1 & 0x40 == z1 && f1 & 0x4
        == p1 && f1 & !0x8c5 == f0 & !0x8c5) by (bit_vector)
        requires
            f1 == (f0 & !0x8c5) | ((s1 | z1) | p1),
            s1 == 0 || s1 == 0x80,
            z1 == 0 || z1 == 0x40,
            p1 == 0 || p1 == 0x4,
    ;
}

/// The word addition flag vector, bit by bit.
pub proof fn lemma_add_flags_table16(f0: u16, s: u16, d: u16, c: bool)
    ensures
        ({
            let r = add_result16(s, d, c);
            let f1 = blit(f0, ARITH_FLAGS, add_flags16(s, d, c));
            &&& (f1 & CF != 0 <==> s + d + carry_in(c) > 0xffff)
            &&& (f1 & OF != 0 <==> ((!(s ^ d)) & (s ^ r)) & 0x8000 != 0)
            &&& (f1 & AF != 0 <==> ((s ^ d) ^ r) & 0x10 != 0)
            &&& (f1 & SF != 0 <==> r >= 0x8000)
            &&& (f1 & ZF != 0 <==> r == 0)
            &&& (f1 & PF != 0 <==> parity_even((r & 0xff) as u8))
            &&& f1 & !ARITH_FLAGS == f0 & !ARITH_FLAGS
        }),
{
    let r = add_result16(s, d, c);
    let cc: u16 = if c {
        1
    } else {
        0
    };
    let s1: u16 = if r >= 0x8000 {
        SF
    } else {
        0
    };
    let z1: u16 = if r == 0 {
        ZF
    } else {
        0
    };
    let p1: u16 = if parity_even((r & 0xff) as u8) {
        PF
    } else {
        0
    };
    let cfb: u16 = if s + d + carry_in(c) > 0xffff {
        CF
    } else {
        0
    };
    let afb: u16 = if (s & 0xf) + (d & 0xf) + carry_in(c) > 0xf {
        AF
    } else {
        0
    };
    let ofb: u16 = if !(-0x8000 <= signed16(s) + signed16(d) + carry_in(c) <= 0x7fff) {
        OF
    } else {
        0
    };
    assert(add_flags16(s, d, c) == ((s1 | z1 | p1) | cfb) | afb | ofb);
    let f1 = blit(f0, ARITH_FLAGS, add_flags16(s, d, c));
    assert(f1 & 0x1 == cfb && f1 & 0x800 == ofb && f1 & 0x10 == afb && f1 & 0x80 == s1 && f1
        & 0x40 == z1 && f1 & 0x4 == p1 && f1 & !0x8d5 == f0 & !0x8d5) by (bit_vector)
        requires
            f1 == (f0 & !0x8d5) | ((((s1 | z1 | p1) | cfb) | afb) | ofb),
            s1 == 0 || s1 == 0x80,
            z1 == 0 || z1 == 0x40,
            p1 == 0 || p1 == 0x4,
            cfb == 0 || cfb == 0x1,
            afb == 0 || afb == 0x10,
            ofb == 0 || ofb == 0x800,
    ;
    assert((((!(s ^ d)) & (s ^ r)) & 0x8000 != 0) == ((s < 0x8000) == (d < 0x8000) && (r
        < 0x8000) != (s < 0x8000))) by (bit_vector);
    assert((((s ^ d) ^ r) & 0x10 != 0) == ((s & 0xf) + (d & 0xf) + cc > 0xf)) by (bit_vector)
        requires
            cc <= 1 && r as int == (s + d + cc) % 0x10000,
    ;
}

/// The word subtraction flag vector, bit by bit.
pub proof fn lemma_sub_flags_table16(f0: u16, s: u16, d: u16, c: bool)
    ensures
        ({
            let r = sub_result16(s, d, c);
            let f1 = blit(f0, ARITH_FLAGS, sub_flags16(s, d, c));
            &&& (f1 & CF != 0 <==> s + carry_in(c) > d)
            &&& (f1 & OF != 0 <==> ((s ^ d) & (d ^ r)) & 0x8000 != 0)
            &&& (f1 & AF != 0 <==> ((s ^ d) ^ r) & 0x10 != 0)
            &&& (f1 & SF != 0 <==> r >= 0x8000)
            &&& (f1 & ZF != 0 <==> r == 0)
            &&& (f1 & PF != 0 <==> parity_even((r & 0xff) as u8))
            &&& f1 & !ARITH_FLAGS == f0 & !ARITH_FLAGS
        }),
{
    let r = sub_result16(s, d, c);
    let cc: u16 = if c {
        1
    } else {
        0
    };
    let s1: u16 = if r >= 0x8000 {
        SF
    } else {
        0
    };
    let z1: u16 = if r == 0 {
        ZF
    } else {
        0
    };
    let p1: u16 = if parity_even((r & 0xff) as u8) {
        PF
    } else {
        0
    };
    let cfb: u16 = if s + carry_in(c) > d {
        CF
    } else {
        0
    };
    let afb: u16 = if (s & 0xf) + carry_in(c) > (d & 0xf) {
        AF
    } else {
        0
    };
    let ofb: u16 = if !(-0x8000 <= signed16(d) - signed16(s) - carry_in(c) <= 0x7fff) {
        OF
    } else {
        0
    };
    assert(sub_flags16(s, d, c) == ((s1 | z1 | p1) | cfb) | afb | ofb);
    let f1 = blit(f0, ARITH_FLAGS, sub_flags16(s, d, c));
    assert(f1 & 0x1 == cfb && f1 & 0x800 == ofb && f1 & 0x10 == afb && f1 & 0x80 == s1 && f1
        & 0x40 == z1 && f1 & 0x4 == p1 && f1 & !0x8d5 == f0 & !0x8d5) by (bit_vector)
        requires
            f1 == (f0 & !0x8d5) | ((((s1 | z1 | p1) | cfb) | afb) | ofb),
            s1 == 0 || s1 == 0x80,
            z1 == 0 || z1 == 0x40,
            p1 == 0 || p1 == 0x4,
            cfb == 0 || cfb == 0x1,
            afb == 0 || afb == 0x10,
            ofb == 0 || ofb == 0x800,
    ;
    assert((((s ^ d) & (d ^ r)) & 0x8000 != 0) == ((s < 0x8000) != (d < 0x8000) && (r < 0x8000)
        != (d < 0x8000))) by (bit_vector);
    assert((((s ^ d) ^ r) & 0x10 != 0) == ((s & 0xf) + cc > (d & 0xf))) by (bit_vector)
        requires
            cc <= 1 && r as int == (d - s - cc) % 0x10000,
    ;
}

/// The logic-operation flag vector of word width.
pub proof fn lemma_logic_flags_table16(f0: u16, r: u16)
    ensures
        ({
            let f1 = blit(f0, LOGIC_FLAGS, szp_flags16(r));
            &&& f1 & CF == 0
            &&& f1 & OF == 0
            &&& (f1 & SF != 0 <==> r >= 0x8000)
            &&& (f1 & ZF != 0 <==> r == 0)
            &&& (f1 & PF != 0 <==> parity_even((r & 0xff) as u8))
            &&& f1 & !LOGIC_FLAGS == f0 & !LOGIC_FLAGS
        }),
{
    let s1: u16 = if r >= 0x8000 {
        SF
    } else {
        0
    };
    let z1: u16 = if r == 0 {
        ZF
    } else {
        0
    };
    let p1: u16 = if parity_even((r & 0xff) as u8) {
        PF
    } else {
        0
    };
    assert(szp_flags16(r) == (s1 | z1) | p1);
    let f1 = blit(f0, LOGIC_FLAGS, szp_flags16(r));
    assert(f1 & 0x1 == 0 && f1 & 0x800 == 0 && f1 & 0x80 == s1 && f1 & 0x40 == z1 && f1 & 0x4
        == p1 && f1 & !0x8c5 == f0 & !0x8c5) by (bit_vector)
        requires
            f1 == (f0 & !0x8c5) | ((s1 | z1) | p1),
            s1 == 0 || s1 == 0x80,
            z1 == 0 || z1 == 0x40,
            p1 == 0 || p1 == 0x4,
    ;
}

} // verus!
