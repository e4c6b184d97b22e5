//! Rendering numbers and fixed texts as byte streams.
//!
//! The machine's print instructions and diagnostics produce bytes on the
//! standard streams.  Everything emitted is described here: digit strings
//! in a radix, zero-padding, and the fixed message texts.

use vstd::prelude::*;
use vstd::arithmetic::div_mod::{lemma_div_decreases, lemma_div_pos_is_pos, lemma_remainder_upper, lemma_remainder_lower};

verus! {

/// The ASCII digit for one digit value, upper-case letters beyond nine.
pub open spec fn digit(d: int, upper: bool) -> u8
    recommends
        0 <= d < 16,
{
    if d < 10 {
        (0x30 + d) as u8
    } else if upper {
        (0x41 + d - 10) as u8
    } else {
        (0x61 + d - 10) as u8
    }
}

/// The digit string of `n` in the given radix, most significant first,
/// with no leading zeros (a lone zero for `n == 0`).
pub open spec fn radix_digits(n: int, base: int, upper: bool) -> Seq<u8>
    recommends
        0 <= n,
        2 <= base <= 16,
    decreases n,
    via radix_digits_decreases
{
    if n < 0 || base < 2 {
        Seq::empty()
    } else if n < base {
        seq![digit(n, upper)]
    } else {
        radix_digits(n / base, base, upper).push(digit(n % base, upper))
    }
}

#[via_fn]
proof fn radix_digits_decreases(n: int, base: int, upper: bool) {
    if !(n < 0 || base < 2) && n >= base {
        lemma_div_decreases(n, base);
        lemma_div_pos_is_pos(n, base);
    }
}

/// `s` left-padded with ASCII zeros to at least `w` bytes.
pub open spec fn pad_zeros(s: Seq<u8>, w: int) -> Seq<u8> {
    if s.len() >= w {
        s
    } else {
        Seq::new((w - s.len()) as nat, |i: int| 0x30u8) + s
    }
}

/// The signed decimal rendering: a minus sign before the magnitude.
pub open spec fn dec_signed(v: int) -> Seq<u8> {
    if v < 0 {
        seq![45u8] + radix_digits(-v, 10, false)
    } else {
        radix_digits(v, 10, false)
    }
}

/// The exec digit map.
pub fn digit_of(d: u32, upper: bool) -> (r: u8)
    requires
        d < 16,
    ensures
        r == digit(d as int, upper),
{
    if d < 10 {
        (0x30 + d) as u8
    } else if upper {
        (0x41 + d - 10) as u8
    } else {
        (0x61 + d - 10) as u8
    }
}

/// Append the digit string of `n` in the given radix to `out`.
pub fn emit_radix(out: &mut Vec<u8>, n: u32, base: u32, upper: bool)
    requires
        2 <= base <= 16,
    ensures
        final(out)@ == old(out)@ + radix_digits(n as int, base as int, upper),
    decreases n,
{
    if n < base {
        out.push(digit_of(n, upper));
        proof {
            assert(out@ =~= old(out)@ + radix_digits(n as int, base as int, upper));
        }
    } else {
        proof {
            lemma_div_decreases(n as int, base as int);
            lemma_div_pos_is_pos(n as int, base as int);
            lemma_remainder_upper(n as int, base as int);
            lemma_remainder_lower(n as int, base as int);
        }
        emit_radix(out, n / base, base, upper);
        out.push(digit_of(n % base, upper));
        proof {
            assert(out@ =~= old(out)@ + radix_digits(n as int, base as int, upper));
        }
    }
}

/// Append the digit string of `n`, left-padded with zeros to `w` bytes.
pub fn emit_radix_padded(out: &mut Vec<u8>, n: u32, base: u32, upper: bool, w: usize)
    requires
        2 <= base <= 16,
        w <= 16,
    ensures
        final(out)@ == old(out)@ + pad_zeros(radix_digits(n as int, base as int, upper), w as int),
{
    let mut digits: Vec<u8> = Vec::new();
    emit_radix(&mut digits, n, base, upper);
    let ghost ds = radix_digits(n as int, base as int, upper);
    let pad_n: usize = if digits.len() < w { w - digits.len() } else { 0 };
    let mut i: usize = 0;
    while i < pad_n
        invariant
            0 <= i <= pad_n,
            out@ == old(out)@ + Seq::new(i as nat, |j: int| 0x30u8),
        decreases pad_n - i,
    {
        out.push(0x30u8);
        proof {
            assert(out@ =~= old(out)@ + Seq::new((i + 1) as nat, |j: int| 0x30u8));
        }
        i = i + 1;
    }
    let mut j: usize = 0;
    while j < digits.len()
        invariant
            0 <= j <= digits@.len(),
            digits@ == ds,
            pad_n == (if ds.len() < w { w - ds.len() } else { 0int }),
            out@ == old(out)@ + Seq::new(pad_n as nat, |q: int| 0x30u8) + ds.take(j as int),
        decreases digits@.len() - j,
    {
        out.push(digits[j]);
        proof {
            assert(out@ =~= old(out)@ + Seq::new(pad_n as nat, |q: int| 0x30u8) + ds.take(
                j + 1,
            ));
        }
        j = j + 1;
    }
    proof {
        assert(ds.take(ds.len() as int) =~= ds);
        assert(out@ =~= old(out)@ + pad_zeros(ds, w as int));
    }
}

/// Append the signed decimal rendering of the word pattern `v` to `out`.
pub fn emit_dec_signed(out: &mut Vec<u8>, v: u32)
    ensures
        final(out)@ == old(out)@ + dec_signed(crate::words::to_signed(v)),
{
    if v >= 0x8000_0000 {
        out.push(45u8);
        let m = crate::arith::magnitude(v);
        emit_radix(out, m, 10, false);
        proof {
            assert(out@ =~= old(out)@ + dec_signed(crate::words::to_signed(v)));
        }
    } else {
        emit_radix(out, v, 10, false);
    }
}

/// The text `>` — the input prompt.
pub open spec fn lit_prompt() -> Seq<u8> {
    seq![62u8, 32u8]
}

/// Append the input prompt to `out`.
pub fn emit_prompt(out: &mut Vec<u8>)
    ensures
        final(out)@ == old(out)@ + lit_prompt(),
{
    out.push(62u8);
    out.push(32u8);
    proof {
        assert(out@ =~= old(out)@ + lit_prompt());
    }
}

/// The text `DEBUG Value=` — the debug line's opening.
pub open spec fn lit_debug_value() -> Seq<u8> {
    seq![68u8, 69u8, 66u8, 85u8, 71u8, 32u8, 86u8, 97u8, 108u8, 117u8, 101u8, 61u8]
}

/// Append the debug line's opening to `out`.
pub fn emit_debug_value(out: &mut Vec<u8>)
    ensures
        final(out)@ == old(out)@ + lit_debug_value(),
{
    out.push(68u8);
    out.push(69u8);
    out.push(66u8);
    out.push(85u8);
    out.push(71u8);
    out.push(32u8);
    out.push(86u8);
    out.push(97u8);
    out.push(108u8);
    out.push(117u8);
    out.push(101u8);
    out.push(61u8);
    proof {
        assert(out@ =~= old(out)@ + lit_debug_value());
    }
}

/// The text `, PC=` — the debug line's program-counter label.
pub open spec fn lit_debug_pc() -> Seq<u8> {
    seq![44u8, 32u8, 80u8, 67u8, 61u8]
}

/// Append the debug line's program-counter label to `out`.
pub fn emit_debug_pc(out: &mut Vec<u8>)
    ensures
        final(out)@ == old(out)@ + lit_debug_pc(),
{
    out.push(44u8);
    out.push(32u8);
    out.push(80u8);
    out.push(67u8);
    out.push(61u8);
    proof {
        assert(out@ =~= old(out)@ + lit_debug_pc());
    }
}

/// The text `, SP=` — the debug line's stack-pointer label.
pub open spec fn lit_debug_sp() -> Seq<u8> {
    seq![44u8, 32u8, 83u8, 80u8, 61u8]
}

/// Append the debug line's stack-pointer label to `out`.
pub fn emit_debug_sp(out: &mut Vec<u8>)
    ensures
        final(out)@ == old(out)@ + lit_debug_sp(),
{
    out.push(44u8);
    out.push(32u8);
    out.push(83u8);
    out.push(80u8);
    out.push(61u8);
    proof {
        assert(out@ =~= old(out)@ + lit_debug_sp());
    }
}

/// The text `Invalid call offset: jumping to` — the call-fault diagnostic.
pub open spec fn lit_call_fault() -> Seq<u8> {
    seq![73u8, 110u8, 118u8, 97u8, 108u8, 105u8, 100u8, 32u8, 99u8, 97u8, 108u8, 108u8, 32u8, 111u8, 102u8, 102u8, 115u8, 101u8, 116u8, 58u8, 32u8, 106u8, 117u8, 109u8, 112u8, 105u8, 110u8, 103u8, 32u8, 116u8, 111u8, 32u8]
}

/// Append the call-fault diagnostic to `out`.
pub fn emit_call_fault(out: &mut Vec<u8>)
    ensures
        final(out)@ == old(out)@ + lit_call_fault(),
{
    out.push(73u8);
    out.push(110u8);
    out.push(118u8);
    out.push(97u8);
    out.push(108u8);
    out.push(105u8);
    out.push(100u8);
    out.push(32u8);
    out.push(99u8);
    out.push(97u8);
    out.push(108u8);
    out.push(108u8);
    out.push(32u8);
    out.push(111u8);
    out.push(102u8);
    out.push(102u8);
    out.push(115u8);
    out.push(101u8);
    out.push(116u8);
    out.push(58u8);
    out.push(32u8);
    out.push(106u8);
    out.push(117u8);
    out.push(109u8);
    out.push(112u8);
    out.push(105u8);
    out.push(110u8);
    out.push(103u8);
    out.push(32u8);
    out.push(116u8);
    out.push(111u8);
    out.push(32u8);
    proof {
        assert(out@ =~= old(out)@ + lit_call_fault());
    }
}

/// The text `Invalid goto offset: jumping to` — the goto-fault diagnostic.
pub open spec fn lit_goto_fault() -> Seq<u8> {
    seq![73u8, 110u8, 118u8, 97u8, 108u8, 105u8, 100u8, 32u8, 103u8, 111u8, 116u8, 111u8, 32u8, 111u8, 102u8, 102u8, 115u8, 101u8, 116u8, 58u8, 32u8, 106u8, 117u8, 109u8, 112u8, 105u8, 110u8, 103u8, 32u8, 116u8, 111u8, 32u8]
}

/// Append the goto-fault diagnostic to `out`.
pub fn emit_goto_fault(out: &mut Vec<u8>)
    ensures
        final(out)@ == old(out)@ + lit_goto_fault(),
{
    out.push(73u8);
    out.push(110u8);
    out.push(118u8);
    out.push(97u8);
    out.push(108u8);
    out.push(105u8);
    out.push(100u8);
    out.push(32u8);
    out.push(103u8);
    out.push(111u8);
    out.push(116u8);
    out.push(111u8);
    out.push(32u8);
    out.push(111u8);
    out.push(102u8);
    out.push(102u8);
    out.push(115u8);
    out.push(101u8);
    out.push(116u8);
    out.push(58u8);
    out.push(32u8);
    out.push(106u8);
    out.push(117u8);
    out.push(109u8);
    out.push(112u8);
    out.push(105u8);
    out.push(110u8);
    out.push(103u8);
    out.push(32u8);
    out.push(116u8);
    out.push(111u8);
    out.push(32u8);
    proof {
        assert(out@ =~= old(out)@ + lit_goto_fault());
    }
}

/// The text `Invalid if<cond> jump to` — the binary-jump fault diagnostic.
pub open spec fn lit_if_fault() -> Seq<u8> {
    seq![73u8, 110u8, 118u8, 97u8, 108u8, 105u8, 100u8, 32u8, 105u8, 102u8, 60u8, 99u8, 111u8, 110u8, 100u8, 62u8, 32u8, 106u8, 117u8, 109u8, 112u8, 32u8, 116u8, 111u8, 32u8]
}

/// Append the binary-jump fault diagnostic to `out`.
pub fn emit_if_fault(out: &mut Vec<u8>)
    ensures
        final(out)@ == old(out)@ + lit_if_fault(),
{
    out.push(73u8);
    out.push(110u8);
    out.push(118u8);
    out.push(97u8);
    out.push(108u8);
    out.push(105u8);
    out.push(100u8);
    out.push(32u8);
    out.push(105u8);
    out.push(102u8);
    out.push(60u8);
    out.push(99u8);
    out.push(111u8);
    out.push(110u8);
    out.push(100u8);
    out.push(62u8);
    out.push(32u8);
    out.push(106u8);
    out.push(117u8);
    out.push(109u8);
    out.push(112u8);
    out.push(32u8);
    out.push(116u8);
    out.push(111u8);
    out.push(32u8);
    proof {
        assert(out@ =~= old(out)@ + lit_if_fault());
    }
}

/// The text `Invalid jump to` — the unary-jump fault diagnostic.
pub open spec fn lit_jump_fault() -> Seq<u8> {
    seq![73u8, 110u8, 118u8, 97u8, 108u8, 105u8, 100u8, 32u8, 106u8, 117u8, 109u8, 112u8, 32u8, 116u8, 111u8, 32u8]
}

/// Append the unary-jump fault diagnostic to `out`.
pub fn emit_jump_fault(out: &mut Vec<u8>)
    ensures
        final(out)@ == old(out)@ + lit_jump_fault(),
{
    out.push(73u8);
    out.push(110u8);
    out.push(118u8);
    out.push(97u8);
    out.push(108u8);
    out.push(105u8);
    out.push(100u8);
    out.push(32u8);
    out.push(106u8);
    out.push(117u8);
    out.push(109u8);
    out.push(112u8);
    out.push(32u8);
    out.push(116u8);
    out.push(111u8);
    out.push(32u8);
    proof {
        assert(out@ =~= old(out)@ + lit_jump_fault());
    }
}

/// The text `:` — the dump line's separator.
pub open spec fn lit_dump_sep() -> Seq<u8> {
    seq![58u8, 32u8]
}

/// Append the dump line's separator to `out`.
pub fn emit_dump_sep(out: &mut Vec<u8>)
    ensures
        final(out)@ == old(out)@ + lit_dump_sep(),
{
    out.push(58u8);
    out.push(32u8);
    proof {
        assert(out@ =~= old(out)@ + lit_dump_sep());
    }
}

/// A single newline byte.
pub open spec fn nl() -> Seq<u8> {
    seq![10u8]
}

/// The marked hex rendering `0x` + upper-case digits of the word pattern.
pub open spec fn hex_marked(v: u32) -> Seq<u8> {
    seq![0x30u8, 0x78u8] + radix_digits(v as int, 16, true)
}

/// The marked binary rendering `0b` + digits of the word pattern.
pub open spec fn bin_marked(v: u32) -> Seq<u8> {
    seq![0x30u8, 0x62u8] + radix_digits(v as int, 2, false)
}

/// The marked octal rendering `0o` + digits of the word pattern.
pub open spec fn oct_marked(v: u32) -> Seq<u8> {
    seq![0x30u8, 0x6Fu8] + radix_digits(v as int, 8, false)
}

/// Append a newline to `out`.
pub fn emit_nl(out: &mut Vec<u8>)
    ensures
        final(out)@ == old(out)@ + nl(),
{
    out.push(10u8);
    proof {
        assert(out@ =~= old(out)@ + nl());
    }
}

/// Append the marked hex rendering of `v` to `out`.
pub fn emit_hex_marked(out: &mut Vec<u8>, v: u32)
    ensures
        final(out)@ == old(out)@ + hex_marked(v),
{
    out.push(0x30u8);
    out.push(0x78u8);
    emit_radix(out, v, 16, true);
    proof {
        assert(out@ =~= old(out)@ + hex_marked(v));
    }
}

/// Append the marked binary rendering of `v` to `out`.
pub fn emit_bin_marked(out: &mut Vec<u8>, v: u32)
    ensures
        final(out)@ == old(out)@ + bin_marked(v),
{
    out.push(0x30u8);
    out.push(0x62u8);
    emit_radix(out, v, 2, false);
    proof {
        assert(out@ =~= old(out)@ + bin_marked(v));
    }
}

/// Append the marked octal rendering of `v` to `out`.
pub fn emit_oct_marked(out: &mut Vec<u8>, v: u32)
    ensures
        final(out)@ == old(out)@ + oct_marked(v),
{
    out.push(0x30u8);
    out.push(0x6Fu8);
    emit_radix(out, v, 8, false);
    proof {
        assert(out@ =~= old(out)@ + oct_marked(v));
    }
}

} // verus!
