//! The mathematical model of 32-bit words stored in byte memory.
//!
//! Words are little-endian: the byte at the lowest address is the least
//! significant.  Signedness is a matter of reading: a word is a `u32` bit
//! pattern, and `to_signed` gives the two's-complement integer it encodes.

use vstd::prelude::*;

verus! {

/// The 32-bit word stored little-endian at `addr`.
pub open spec fn word_at(ram: Seq<u8>, addr: int) -> u32
    recommends
        0 <= addr,
        addr + 4 <= ram.len(),
{
    (ram[addr] + ram[addr + 1] * 0x100 + ram[addr + 2] * 0x1_0000 + ram[addr + 3] * 0x100_0000) as u32
}

/// Memory after storing `v` little-endian at `addr`.
pub open spec fn store_word(ram: Seq<u8>, addr: int, v: u32) -> Seq<u8>
    recommends
        0 <= addr,
        addr + 4 <= ram.len(),
{
    ram.update(addr, (v % 0x100) as u8)
        .update(addr + 1, ((v / 0x100) % 0x100) as u8)
        .update(addr + 2, ((v / 0x1_0000) % 0x100) as u8)
        .update(addr + 3, ((v / 0x100_0000) % 0x100) as u8)
}

/// Reduce an integer to the 32-bit pattern it wraps to.
pub open spec fn wrap32(x: int) -> u32 {
    (x % 0x1_0000_0000) as u32
}

/// The two's-complement integer encoded by a 32-bit pattern.
pub open spec fn to_signed(x: u32) -> int {
    if x >= 0x8000_0000 {
        x - 0x1_0000_0000
    } else {
        x as int
    }
}

/// Storing then reading a word at the same address yields the word back,
/// and no byte outside `[addr, addr + 4)` changes.
pub proof fn lemma_store_word(ram: Seq<u8>, addr: int, v: u32)
    requires
        0 <= addr,
        addr + 4 <= ram.len(),
    ensures
        store_word(ram, addr, v).len() == ram.len(),
        word_at(store_word(ram, addr, v), addr) == v,
        forall|i: int|
            0 <= i < ram.len() && !(addr <= i < addr + 4) ==> store_word(ram, addr, v)[i] == ram[i],
{
    let b0 = (v % 0x100) as u8;
    let b1 = ((v / 0x100) % 0x100) as u8;
    let b2 = ((v / 0x1_0000) % 0x100) as u8;
    let b3 = ((v / 0x100_0000) % 0x100) as u8;
    assert(v == b0 + b1 * 0x100 + b2 * 0x1_0000 + b3 * 0x100_0000) by {
        assert(v == v % 0x100 + (v / 0x100) * 0x100) by {
            vstd::arithmetic::div_mod::lemma_fundamental_div_mod(v as int, 0x100);
        }
        assert(v / 0x100 == (v / 0x100) % 0x100 + (v / 0x1_0000) * 0x100) by {
            vstd::arithmetic::div_mod::lemma_fundamental_div_mod(v as int / 0x100, 0x100);
            assert(v as int / 0x100 / 0x100 == v as int / 0x1_0000) by {
                vstd::arithmetic::div_mod::lemma_div_denominator(v as int, 0x100, 0x100);
            }
        }
        assert(v / 0x1_0000 == (v / 0x1_0000) % 0x100 + (v / 0x100_0000) * 0x100) by {
            vstd::arithmetic::div_mod::lemma_fundamental_div_mod(v as int / 0x1_0000, 0x100);
            assert(v as int / 0x1_0000 / 0x100 == v as int / 0x100_0000) by {
                vstd::arithmetic::div_mod::lemma_div_denominator(v as int, 0x1_0000, 0x100);
            }
        }
        assert(v / 0x100_0000 % 0x100 == v / 0x100_0000) by {
            assert(v / 0x100_0000 < 0x100) by {
                vstd::arithmetic::div_mod::lemma_div_is_ordered(
                    v as int,
                    0xFFFF_FFFF,
                    0x100_0000,
                );
                assert(0xFFFF_FFFF as int / 0x100_0000 == 0xFF);
            }
        }
    }
}

/// The two's-complement integer reading of a low byte, as a machine `i8`.
pub open spec fn as_i8_bits(b: u32) -> i8
    recommends
        b < 0x100,
{
    if b >= 0x80 {
        (b - 0x100) as i8
    } else {
        b as i8
    }
}

/// The `i32` carrying the same 32 bits as the pattern.
pub open spec fn as_i32_bits(x: u32) -> i32 {
    if x >= 0x8000_0000 {
        (x - 0x1_0000_0000) as i32
    } else {
        x as i32
    }
}

/// The 32-bit pattern carried by the `i32`.
pub open spec fn as_u32_bits(x: i32) -> u32 {
    if x < 0 {
        (x + 0x1_0000_0000) as u32
    } else {
        x as u32
    }
}

} // verus!
