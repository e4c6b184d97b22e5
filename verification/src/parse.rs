//! Reading one input line as a 32-bit value.
//!
//! The line is trimmed of ASCII whitespace, then read as hex after a
//! `0x` marker, binary after a `0b` marker, or signed decimal otherwise.
//! Anything unreadable — a bad digit, an empty body, a value out of
//! range — yields zero.  The decimal range is that of a signed 32-bit
//! integer; marked hex and binary take the full unsigned range.

use vstd::prelude::*;
use crate::words::wrap32;
use crate::arith::{lemma_wrap32_id, lemma_wrap32_period};

verus! {

/// ASCII whitespace: space and the five control characters tab through
/// carriage return.
pub open spec fn is_space(b: u8) -> bool {
    b == 0x20 || (0x09 <= b && b <= 0x0D)
}

/// The sequence with leading whitespace removed.
pub open spec fn trim_front(s: Seq<u8>) -> Seq<u8>
    decreases s.len(),
{
    if s.len() > 0 && is_space(s[0]) {
        trim_front(s.skip(1))
    } else {
        s
    }
}

/// The sequence with trailing whitespace removed.
pub open spec fn trim_back(s: Seq<u8>) -> Seq<u8>
    decreases s.len(),
{
    if s.len() > 0 && is_space(s[s.len() - 1]) {
        trim_back(s.take(s.len() - 1))
    } else {
        s
    }
}

/// The sequence with whitespace removed from both ends.
pub open spec fn trim_spec(s: Seq<u8>) -> Seq<u8> {
    trim_back(trim_front(s))
}

/// The value of an ASCII digit, letters in either case; 16 marks a
/// non-digit.
pub open spec fn dval(b: u8) -> int {
    if 0x30 <= b && b <= 0x39 {
        b - 0x30
    } else if 0x61 <= b && b <= 0x66 {
        b - 0x61 + 10
    } else if 0x41 <= b && b <= 0x46 {
        b - 0x41 + 10
    } else {
        16
    }
}

/// Whether the byte is a digit of the radix.
pub open spec fn is_digit(b: u8, base: int) -> bool {
    dval(b) < base
}

/// A non-empty run of digits of the radix.
pub open spec fn digits_ok(s: Seq<u8>, base: int) -> bool {
    s.len() > 0 && forall|i: int| 0 <= i < s.len() ==> is_digit(#[trigger] s[i], base)
}

/// The number the digit run denotes, most significant digit first.
pub open spec fn digits_val(s: Seq<u8>, base: int) -> int
    decreases s.len(),
{
    if s.len() == 0 {
        0
    } else {
        digits_val(s.take(s.len() - 1), base) * base + dval(s[s.len() - 1])
    }
}

/// The sequence with one leading plus sign removed.
pub open spec fn strip_plus(s: Seq<u8>) -> Seq<u8> {
    if s.len() >= 1 && s[0] == 0x2B {
        s.skip(1)
    } else {
        s
    }
}

/// The value an unsigned radix read yields: the denoted number when the
/// body is a digit run whose value fits in 32 bits, zero otherwise.
pub open spec fn parse_unsigned(s: Seq<u8>, base: int) -> u32 {
    let body = strip_plus(s);
    if digits_ok(body, base) && digits_val(body, base) < 0x1_0000_0000 {
        digits_val(body, base) as u32
    } else {
        0u32
    }
}

/// The word pattern a signed decimal read yields: the two's-complement
/// encoding of the denoted number when it lies in the signed 32-bit
/// range, zero otherwise.
pub open spec fn parse_signed_dec(s: Seq<u8>) -> u32 {
    let neg = s.len() >= 1 && s[0] == 0x2D;
    let body = if neg {
        s.skip(1)
    } else {
        strip_plus(s)
    };
    if digits_ok(body, 10) {
        let v = digits_val(body, 10);
        if neg && v <= 0x8000_0000 {
            wrap32(-v)
        } else if !neg && v < 0x8000_0000 {
            v as u32
        } else {
            0u32
        }
    } else {
        0u32
    }
}

/// The value of a whole input line: trim, then dispatch on the marker.
pub open spec fn input_value(line: Seq<u8>) -> u32 {
    let t = trim_spec(line);
    if t.len() >= 2 && t[0] == 0x30 && (t[1] == 0x78 || t[1] == 0x58) {
        parse_unsigned(t.skip(2), 16)
    } else if t.len() >= 2 && t[0] == 0x30 && (t[1] == 0x62 || t[1] == 0x42) {
        parse_unsigned(t.skip(2), 2)
    } else {
        parse_signed_dec(t)
    }
}

/// A value capped at one past the largest word: all that an accumulator
/// needs to remember about an overflowing digit run.
pub open spec fn clamp32(x: int) -> int {
    if x > 0x1_0000_0000 {
        0x1_0000_0000
    } else {
        x
    }
}

/// Trim ASCII whitespace from both ends of the line.
pub fn trim_bytes(s: &[u8]) -> (t: Vec<u8>)
    ensures
        t@ == trim_spec(s@),
{
    let n = s.len();
    proof {
        assert(s@.skip(0) =~= s@);
    }
    let mut i: usize = 0;
    while i < n && (s[i] == 0x20 || (0x09 <= s[i] && s[i] <= 0x0D))
        invariant
            i <= n,
            n == s@.len(),
            trim_front(s@) == trim_front(s@.skip(i as int)),
        decreases n - i,
    {
        proof {
            assert(s@.skip(i as int).skip(1) =~= s@.skip(i + 1));
        }
        i = i + 1;
    }
    proof {
        assert(trim_front(s@) =~= s@.skip(i as int));
    }
    proof {
        assert(s@.skip(i as int) =~= s@.subrange(i as int, n as int));
    }
    let mut j: usize = n;
    while j > i && (s[j - 1] == 0x20 || (0x09 <= s[j - 1] && s[j - 1] <= 0x0D))
        invariant
            i <= j <= n,
            n == s@.len(),
            trim_front(s@) == s@.skip(i as int),
            trim_back(s@.skip(i as int)) == trim_back(s@.subrange(i as int, j as int)),
        decreases j,
    {
        proof {
            assert(s@.subrange(i as int, j as int).take(j - i - 1) =~= s@.subrange(
                i as int,
                j - 1,
            ));
        }
        j = j - 1;
    }
    proof {
        assert(trim_back(s@.subrange(i as int, j as int)) =~= s@.subrange(i as int, j as int));
    }
    let mut t: Vec<u8> = Vec::new();
    proof {
        assert(t@ =~= s@.subrange(i as int, i as int));
    }
    let mut k: usize = i;
    while k < j
        invariant
            i <= k <= j <= n,
            n == s@.len(),
            t@ == s@.subrange(i as int, k as int),
        decreases j - k,
    {
        t.push(s[k]);
        proof {
            assert(t@ =~= s@.subrange(i as int, k + 1));
        }
        k = k + 1;
    }
    t
}

/// Read a digit run, remembering its value capped at one past the
/// largest word; reports a bad digit or an empty run as `None`.
pub fn scan_digits(s: &[u8], base: u32) -> (r: Option<u64>)
    requires
        2 <= base <= 16,
    ensures
        match r {
            Some(v) => digits_ok(s@, base as int) && v == clamp32(digits_val(s@, base as int)),
            None => !digits_ok(s@, base as int),
        },
{
    let n = s.len();
    if n == 0 {
        return None;
    }
    let mut acc: u64 = 0;
    let mut i: usize = 0;
    while i < n
        invariant
            i <= n,
            n == s@.len(),
            2 <= base <= 16,
            acc == clamp32(digits_val(s@.take(i as int), base as int)),
            acc <= 0x1_0000_0000,
            forall|j: int| 0 <= j < i ==> is_digit(#[trigger] s@[j], base as int),
        decreases n - i,
    {
        let b = s[i];
        let d: u32 = if 0x30 <= b && b <= 0x39 {
            b as u32 - 0x30
        } else if 0x61 <= b && b <= 0x66 {
            b as u32 - 0x61 + 10
        } else if 0x41 <= b && b <= 0x46 {
            b as u32 - 0x41 + 10
        } else {
            16
        };
        if d >= base {
            return None;
        }
        let ghost prev = digits_val(s@.take(i as int), base as int);
        let ghost cur = digits_val(s@.take(i + 1), base as int);
        proof {
            assert(s@.take(i + 1).take(i as int) =~= s@.take(i as int));
            assert(cur == prev * base + dval(s@[i as int]));
            if prev > 0x1_0000_0000 {
                assert(prev * base >= prev * 2) by (nonlinear_arith)
                    requires
                        prev > 0x1_0000_0000,
                        base >= 2,
                ;
            } else if prev >= 1 {
                assert(prev * base >= prev) by (nonlinear_arith)
                    requires
                        prev >= 1,
                        base >= 1,
                ;
            } else {
                assert(prev == 0 || prev == clamp32(prev));
            }
        }
        proof {
            assert(acc * base <= 0x10_0000_0000) by (nonlinear_arith)
                requires
                    0 <= acc <= 0x1_0000_0000,
                    0 <= base <= 16,
            ;
        }
        let next = acc * base as u64 + d as u64;
        acc = if next > 0xFFFF_FFFF {
            0x1_0000_0000
        } else {
            next
        };
        proof {
            if prev <= 0x1_0000_0000 && cur <= 0x1_0000_0000 {
                assert(acc == clamp32(cur));
            } else {
                assert(prev * base + dval(s@[i as int]) > 0x1_0000_0000) by (nonlinear_arith)
                    requires
                        prev >= 0x1_0000_0000 || prev * base + dval(s@[i as int]) > 0x1_0000_0000,
                        base >= 2,
                        dval(s@[i as int]) >= 0,
                ;
                assert(acc == 0x1_0000_0000);
            }
        }
        i = i + 1;
    }
    proof {
        assert(s@.take(n as int) =~= s@);
    }
    Some(acc)
}

/// Read an unsigned number in the radix; anything unreadable gives zero.
pub fn read_unsigned(s: &[u8], base: u32) -> (v: u32)
    requires
        2 <= base <= 16,
    ensures
        v == parse_unsigned(s@, base as int),
{
    let body: &[u8] = if s.len() >= 1 && s[0] == 0x2B {
        &s[1..s.len()]
    } else {
        s
    };
    proof {
        assert(body@ =~= strip_plus(s@));
    }
    match scan_digits(body, base) {
        None => 0,
        Some(acc) => {
            if acc < 0x1_0000_0000 {
                acc as u32
            } else {
                0
            }
        },
    }
}

/// Read a signed decimal number; anything unreadable or out of the
/// signed 32-bit range gives zero.
pub fn read_signed_dec(s: &[u8]) -> (v: u32)
    ensures
        v == parse_signed_dec(s@),
{
    let neg = s.len() >= 1 && s[0] == 0x2D;
    let body: &[u8] = if neg {
        &s[1..s.len()]
    } else if s.len() >= 1 && s[0] == 0x2B {
        &s[1..s.len()]
    } else {
        s
    };
    proof {
        if neg {
            assert(body@ =~= s@.skip(1));
        } else {
            assert(body@ =~= strip_plus(s@));
        }
    }
    match scan_digits(body, 10) {
        None => 0,
        Some(acc) => {
            if neg {
                if acc <= 0x8000_0000 {
                    if acc == 0 {
                        proof {
                            lemma_wrap32_id(0);
                        }
                        0
                    } else {
                        proof {
                            lemma_wrap32_period(-(acc as int));
                            lemma_wrap32_id(0x1_0000_0000 - acc);
                        }
                        (0x1_0000_0000u64 - acc) as u32
                    }
                } else {
                    0
                }
            } else {
                if acc < 0x8000_0000 {
                    acc as u32
                } else {
                    0
                }
            }
        },
    }
}

/// Read a whole input line: trim, then hex after `0x`, binary after
/// `0b`, signed decimal otherwise.
pub fn parse_input_line(line: &[u8]) -> (v: u32)
    ensures
        v == input_value(line@),
{
    let t = trim_bytes(line);
    let ts = t.as_slice();
    if ts.len() >= 2 && ts[0] == 0x30 && (ts[1] == 0x78 || ts[1] == 0x58) {
        let body = &ts[2..ts.len()];
        proof {
            assert(body@ =~= t@.skip(2));
        }
        read_unsigned(body, 16)
    } else if ts.len() >= 2 && ts[0] == 0x30 && (ts[1] == 0x62 || ts[1] == 0x42) {
        let body = &ts[2..ts.len()];
        proof {
            assert(body@ =~= t@.skip(2));
        }
        read_unsigned(body, 2)
    } else {
        read_signed_dec(ts)
    }
}

} // verus!
