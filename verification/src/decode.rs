//! Instruction word decoding.
//!
//! Every instruction is one 32-bit word.  The top nibble selects the
//! operation family; the remaining bits hold family-specific fields:
//! a sub-opcode, an unsigned immediate, or a signed offset stored in
//! two's complement within a narrow field.

use vstd::prelude::*;

verus! {

/// Operation family: bits 31:28.
pub open spec fn opcode(w: u32) -> u32 {
    (w >> 28) & 0xF
}

/// Sub-opcode within a family: bits 27:24.
pub open spec fn subcode(w: u32) -> u32 {
    (w >> 24) & 0xF
}

/// Unsigned 28-bit immediate: bits 27:0.
pub open spec fn imm28(w: u32) -> u32 {
    w & 0x0FFF_FFFF
}

/// Unsigned 24-bit immediate: bits 23:0.
pub open spec fn imm24(w: u32) -> u32 {
    w & 0x00FF_FFFF
}

/// Raw 26-bit offset field: bits 27:2.
pub open spec fn field26(w: u32) -> u32 {
    (w >> 2) & 0x03FF_FFFF
}

/// Raw 23-bit offset field: bits 24:2.
pub open spec fn field23(w: u32) -> u32 {
    (w >> 2) & 0x007F_FFFF
}

/// Three-bit condition code of the binary conditional jump: bits 27:25.
pub open spec fn cond3(w: u32) -> u32 {
    (w >> 25) & 0x7
}

/// Two-bit condition code of the unary conditional jump: bits 26:25.
pub open spec fn cond2(w: u32) -> u32 {
    (w >> 25) & 0x3
}

/// The two swap fields: bits 23:12 and bits 11:0.
pub open spec fn field12_hi(w: u32) -> u32 {
    (w >> 12) & 0xFFF
}

pub open spec fn field12_lo(w: u32) -> u32 {
    w & 0xFFF
}

/// Format selector of the formatted print: bits 1:0.
pub open spec fn fmt2(w: u32) -> u32 {
    w & 0x3
}

/// Low byte of the word: bits 7:0.
pub open spec fn byte0(w: u32) -> u32 {
    w & 0xFF
}

/// Sign-extend a 12-bit two's-complement field.
pub open spec fn sx12(raw: u32) -> int
    recommends
        raw < 0x1000,
{
    if raw >= 0x800 {
        raw - 0x1000
    } else {
        raw as int
    }
}

/// Sign-extend a 23-bit two's-complement field.
pub open spec fn sx23(raw: u32) -> int
    recommends
        raw < 0x80_0000,
{
    if raw >= 0x40_0000 {
        raw - 0x80_0000
    } else {
        raw as int
    }
}

/// Sign-extend a 24-bit two's-complement field.
pub open spec fn sx24(raw: u32) -> int
    recommends
        raw < 0x100_0000,
{
    if raw >= 0x80_0000 {
        raw - 0x100_0000
    } else {
        raw as int
    }
}

/// Sign-extend a 26-bit two's-complement field.
pub open spec fn sx26(raw: u32) -> int
    recommends
        raw < 0x400_0000,
{
    if raw >= 0x200_0000 {
        raw - 0x400_0000
    } else {
        raw as int
    }
}

/// Extract bits 31:28 of the word.
pub fn x_opcode(w: u32) -> (r: u32)
    ensures
        r == opcode(w),
        r < 0x10,
{
    proof {
        assert((w >> 28) & 0xF < 0x10) by (bit_vector);
    }
    (w >> 28) & 0xF
}

/// Extract bits 27:24 of the word.
pub fn x_subcode(w: u32) -> (r: u32)
    ensures
        r == subcode(w),
        r < 0x10,
{
    proof {
        assert((w >> 24) & 0xF < 0x10) by (bit_vector);
    }
    (w >> 24) & 0xF
}

/// Extract bits 27:0 of the word.
pub fn x_imm28(w: u32) -> (r: u32)
    ensures
        r == imm28(w),
        r < 0x1000_0000,
{
    proof {
        assert(w & 0x0FFF_FFFF < 0x1000_0000) by (bit_vector);
    }
    w & 0x0FFF_FFFF
}

/// Extract bits 23:0 of the word.
pub fn x_imm24(w: u32) -> (r: u32)
    ensures
        r == imm24(w),
        r < 0x100_0000,
{
    proof {
        assert(w & 0x00FF_FFFF < 0x100_0000) by (bit_vector);
    }
    w & 0x00FF_FFFF
}

/// Extract and sign-extend the 26-bit offset field, as a unit count.
pub fn x_off26(w: u32) -> (r: i32)
    ensures
        r as int == sx26(field26(w)),
        -0x200_0000 <= r as int && (r as int) < 0x200_0000,
{
    proof {
        assert((w >> 2) & 0x03FF_FFFF < 0x400_0000) by (bit_vector);
    }
    let raw = (w >> 2) & 0x03FF_FFFF;
    if raw >= 0x200_0000 {
        (raw as i64 - 0x400_0000) as i32
    } else {
        raw as i32
    }
}

/// Extract and sign-extend the 23-bit offset field, as a unit count.
pub fn x_off23(w: u32) -> (r: i32)
    ensures
        r as int == sx23(field23(w)),
        -0x40_0000 <= r as int && (r as int) < 0x40_0000,
{
    proof {
        assert((w >> 2) & 0x007F_FFFF < 0x80_0000) by (bit_vector);
    }
    let raw = (w >> 2) & 0x007F_FFFF;
    if raw >= 0x40_0000 {
        (raw as i64 - 0x80_0000) as i32
    } else {
        raw as i32
    }
}

/// Extract and sign-extend the 24-bit offset field, as a unit count.
pub fn x_off24(w: u32) -> (r: i32)
    ensures
        r as int == sx24(imm24(w)),
        -0x80_0000 <= r as int && (r as int) < 0x80_0000,
{
    proof {
        assert(w & 0x00FF_FFFF < 0x100_0000) by (bit_vector);
    }
    let raw = w & 0x00FF_FFFF;
    if raw >= 0x80_0000 {
        (raw as i64 - 0x100_0000) as i32
    } else {
        raw as i32
    }
}

/// Extract and sign-extend a 12-bit swap field, as a unit count.
pub fn x_off12(raw: u32) -> (r: i32)
    requires
        raw < 0x1000,
    ensures
        r as int == sx12(raw),
        -0x800 <= r as int && (r as int) < 0x800,
{
    if raw >= 0x800 {
        (raw as i64 - 0x1000) as i32
    } else {
        raw as i32
    }
}

/// Extract the three-bit condition code.
pub fn x_cond3(w: u32) -> (r: u32)
    ensures
        r == cond3(w),
        r < 8,
{
    proof {
        assert((w >> 25) & 0x7 < 8) by (bit_vector);
    }
    (w >> 25) & 0x7
}

/// Extract the two-bit condition code.
pub fn x_cond2(w: u32) -> (r: u32)
    ensures
        r == cond2(w),
        r < 4,
{
    proof {
        assert((w >> 25) & 0x3 < 4) by (bit_vector);
    }
    (w >> 25) & 0x3
}

/// Extract the two swap fields.
pub fn x_field12(w: u32) -> (r: (u32, u32))
    ensures
        r.0 == field12_hi(w),
        r.1 == field12_lo(w),
        r.0 < 0x1000,
        r.1 < 0x1000,
{
    proof {
        assert((w >> 12) & 0xFFF < 0x1000) by (bit_vector);
        assert(w & 0xFFF < 0x1000) by (bit_vector);
    }
    ((w >> 12) & 0xFFF, w & 0xFFF)
}

} // verus!
