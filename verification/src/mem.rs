//! Word-granular memory access and the stack operations.
//!
//! The stack grows downward: `push` moves the stack pointer four bytes
//! toward address zero and stores there; `pop` reads at the stack pointer
//! and moves it four bytes back up.

use vstd::prelude::*;
use crate::words::{word_at, store_word, lemma_store_word};

verus! {

/// Read the 32-bit little-endian word at `addr`.
pub fn read_u32(ram: &[u8], addr: usize) -> (v: u32)
    requires
        addr + 4 <= ram@.len(),
    ensures
        v == word_at(ram@, addr as int),
{
    ram[addr] as u32 + ram[addr + 1] as u32 * 0x100 + ram[addr + 2] as u32 * 0x1_0000
        + ram[addr + 3] as u32 * 0x100_0000
}

/// Store `value` as a 32-bit little-endian word at `addr`.
pub fn write_u32(ram: &mut Vec<u8>, addr: usize, value: u32)
    requires
        addr + 4 <= old(ram)@.len(),
    ensures
        final(ram)@ == store_word(old(ram)@, addr as int, value),
        final(ram)@.len() == old(ram)@.len(),
{
    proof {
        lemma_store_word(old(ram)@, addr as int, value);
    }
    let n: usize = ram.len();
    assert(addr + 4 <= n);
    ram[addr] = (value % 0x100) as u8;
    ram[addr + 1] = ((value / 0x100) % 0x100) as u8;
    ram[addr + 2] = ((value / 0x1_0000) % 0x100) as u8;
    ram[addr + 3] = ((value / 0x100_0000) % 0x100) as u8;
}

/// Pop one word: read at the stack pointer, then raise it by four.
pub fn pop(sp: &mut usize, ram: &[u8]) -> (val: u32)
    requires
        *old(sp) + 4 <= ram@.len(),
    ensures
        val == word_at(ram@, *old(sp) as int),
        *final(sp) == *old(sp) + 4,
{
    let n: usize = ram.len();
    assert(*sp + 4 <= n);
    let val = read_u32(ram, *sp);
    *sp = *sp + 4;
    val
}

/// Push one word: lower the stack pointer by four, then store there.
pub fn push(sp: &mut usize, ram: &mut Vec<u8>, val: u32)
    requires
        4 <= *old(sp),
        *old(sp) <= old(ram)@.len(),
    ensures
        *final(sp) == *old(sp) - 4,
        final(ram)@ == store_word(old(ram)@, *old(sp) - 4, val),
        final(ram)@.len() == old(ram)@.len(),
        word_at(final(ram)@, *old(sp) - 4) == val,
{
    proof {
        lemma_store_word(old(ram)@, *old(sp) - 4, val);
    }
    *sp = *sp - 4;
    write_u32(ram, *sp, val);
}

} // verus!
