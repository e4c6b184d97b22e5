//! The arithmetic the machine performs on 32-bit words.
//!
//! All operations wrap at 32 bits.  Division and modulo follow the
//! truncating convention of two's-complement hardware (quotient rounded
//! toward zero, remainder taking the dividend's sign), and division or
//! modulo by zero yields zero instead of faulting.

use vstd::prelude::*;
use crate::words::{wrap32, to_signed};
use vstd::arithmetic::div_mod::{
    lemma_small_mod,
    lemma_mod_add_multiples_vanish,
    lemma_mod_sub_multiples_vanish,
    lemma_div_pos_is_pos,
    lemma_remainder_upper,
    lemma_remainder_lower,
    lemma_div_is_ordered_by_denominator,
};

verus! {

/// Truncating division: quotient rounded toward zero.
pub open spec fn tdiv(a: int, b: int) -> int
    recommends
        b != 0,
{
    let q = abs_of(a) / abs_of(b);
    if (a < 0) != (b < 0) {
        -q
    } else {
        q
    }
}

/// Truncating remainder: takes the dividend's sign, `a == b * tdiv(a, b) + tmod(a, b)`.
pub open spec fn tmod(a: int, b: int) -> int
    recommends
        b != 0,
{
    let r = abs_of(a) % abs_of(b);
    if a < 0 {
        -r
    } else {
        r
    }
}

pub open spec fn abs_of(a: int) -> int {
    if a < 0 {
        -a
    } else {
        a
    }
}

/// A value modulo 2^32 stays put when it is already in range.
pub proof fn lemma_wrap32_id(x: int)
    requires
        0 <= x < 0x1_0000_0000,
    ensures
        wrap32(x) == x,
{
    lemma_small_mod(x as nat, 0x1_0000_0000);
}

/// Shifting by one full period does not change the wrapped value.
pub proof fn lemma_wrap32_period(x: int)
    ensures
        wrap32(x + 0x1_0000_0000) == wrap32(x),
        wrap32(x - 0x1_0000_0000) == wrap32(x),
{
    lemma_mod_add_multiples_vanish(x, 0x1_0000_0000);
    lemma_mod_sub_multiples_vanish(x, 0x1_0000_0000);
}

/// Wrapping sum of two word patterns.
pub fn add_w(a: u32, b: u32) -> (r: u32)
    ensures
        r == wrap32(a + b),
{
    proof {
        if a + b < 0x1_0000_0000 {
            lemma_wrap32_id(a + b);
        } else {
            lemma_wrap32_period(a + b - 0x1_0000_0000);
            lemma_wrap32_id(a + b - 0x1_0000_0000);
        }
    }
    a.wrapping_add(b)
}

/// Wrapping difference of two word patterns.
pub fn sub_w(a: u32, b: u32) -> (r: u32)
    ensures
        r == wrap32(a - b),
{
    proof {
        if a - b >= 0 {
            lemma_wrap32_id(a - b);
        } else {
            lemma_wrap32_period(a - b);
            lemma_wrap32_id(a - b + 0x1_0000_0000);
        }
    }
    a.wrapping_sub(b)
}

/// Wrapping product of two word patterns.
pub fn mul_w(a: u32, b: u32) -> (r: u32)
    ensures
        r == wrap32(a * b),
{
    a.wrapping_mul(b)
}

/// The 32-bit pattern of the negated value: two's-complement negation.
pub fn neg_w(a: u32) -> (r: u32)
    ensures
        r == wrap32(-(a as int)),
{
    if a == 0 {
        proof {
            lemma_wrap32_id(0);
        }
        0
    } else {
        proof {
            lemma_wrap32_period(-(a as int));
            lemma_wrap32_id(0x1_0000_0000 - a);
        }
        (0x1_0000_0000u64 - a as u64) as u32
    }
}

/// Magnitude of the signed reading of a word pattern.
pub fn magnitude(a: u32) -> (r: u32)
    ensures
        r == abs_of(to_signed(a)),
{
    if a >= 0x8000_0000 {
        (0x1_0000_0000u64 - a as u64) as u32
    } else {
        a
    }
}

/// The word pattern encoding a signed value.
pub fn encode_signed(v: i64) -> (r: u32)
    requires
        -0x8000_0000 <= v < 0x8000_0000,
    ensures
        r == wrap32(v as int),
{
    if v < 0 {
        proof {
            lemma_wrap32_period(v as int);
            lemma_wrap32_id(v + 0x1_0000_0000);
        }
        (v + 0x1_0000_0000) as u32
    } else {
        proof {
            lemma_wrap32_id(v as int);
        }
        v as u32
    }
}

/// Wrapped truncating quotient of the signed readings; zero divisor yields zero.
pub fn div_w(a: u32, b: u32) -> (r: u32)
    ensures
        r == (if to_signed(b) == 0 {
            0u32
        } else {
            wrap32(tdiv(to_signed(a), to_signed(b)))
        }),
{
    if b == 0 {
        return 0;
    }
    let ma = magnitude(a);
    let mb = magnitude(b);
    let q = ma / mb;
    proof {
        lemma_div_pos_is_pos(ma as int, mb as int);
        lemma_div_is_ordered_by_denominator(ma as int, 1, mb as int);
        assert(q <= 0x8000_0000);
    }
    let neg = (a >= 0x8000_0000) != (b >= 0x8000_0000);
    if neg {
        proof {
            if q > 0 {
                lemma_wrap32_period(-(q as int));
                lemma_wrap32_id(0x1_0000_0000 - q);
            } else {
                lemma_wrap32_id(0);
            }
        }
        if q == 0 {
            0
        } else {
            (0x1_0000_0000u64 - q as u64) as u32
        }
    } else {
        proof {
            lemma_wrap32_id(q as int);
        }
        q
    }
}

/// Wrapped truncating remainder of the signed readings; zero divisor yields zero.
pub fn mod_w(a: u32, b: u32) -> (r: u32)
    ensures
        r == (if to_signed(b) == 0 {
            0u32
        } else {
            wrap32(tmod(to_signed(a), to_signed(b)))
        }),
{
    if b == 0 {
        return 0;
    }
    let ma = magnitude(a);
    let mb = magnitude(b);
    let m = ma % mb;
    proof {
        lemma_remainder_upper(ma as int, mb as int);
        lemma_remainder_lower(ma as int, mb as int);
        assert(m < 0x1_0000_0000);
    }
    if a >= 0x8000_0000 {
        proof {
            if m > 0 {
                lemma_wrap32_period(-(m as int));
                lemma_wrap32_id(0x1_0000_0000 - m);
            } else {
                lemma_wrap32_id(0);
            }
        }
        if m == 0 {
            0
        } else {
            (0x1_0000_0000u64 - m as u64) as u32
        }
    } else {
        proof {
            lemma_wrap32_id(m as int);
        }
        m
    }
}

/// Signed reading of a word pattern, as a machine integer.
pub fn signed_of(a: u32) -> (r: i32)
    ensures
        r as int == to_signed(a),
{
    if a >= 0x8000_0000 {
        (a as i64 - 0x1_0000_0000) as i32
    } else {
        a as i32
    }
}

/// Arithmetic shift right of the word pattern: the sign bit fills in from
/// the left; only the low five bits of the count are used.
pub open spec fn asr32(x: u32, s: u32) -> u32 {
    crate::words::as_u32_bits(crate::words::as_i32_bits(x) >> (s % 32))
}

/// Shift left, using only the low five bits of the count.
pub fn shl_w(a: u32, b: u32) -> (r: u32)
    ensures
        r == (a << (b % 32)),
{
    a.wrapping_shl(b)
}

/// Logical shift right, using only the low five bits of the count.
pub fn shr_w(a: u32, b: u32) -> (r: u32)
    ensures
        r == (a >> (b % 32)),
{
    a.wrapping_shr(b)
}

/// Arithmetic shift right, using only the low five bits of the count.
pub fn asr_w(a: u32, b: u32) -> (r: u32)
    ensures
        r == asr32(a, b),
{
    let xi: i32 = if a >= 0x8000_0000 {
        (a as i64 - 0x1_0000_0000) as i32
    } else {
        a as i32
    };
    let sh: i32 = xi.wrapping_shr(b);
    if sh < 0 {
        (sh as i64 + 0x1_0000_0000) as u32
    } else {
        sh as u32
    }
}

} // verus!
