//! Laws of the machine, stated and proved over the transition relation.

use vstd::prelude::*;
use crate::RAM_SIZE;
use crate::words::{word_at, store_word, lemma_store_word};
use crate::decode::{opcode, subcode, imm28, field26, sx26};
use crate::sem::{binop_known, unop_known};
use crate::machine::StepResult;
use crate::sem::spec_step;
use crate::loader::{magic_ok, load_outcome, LoadError};

verus! {

/// Pushing a value and immediately popping yields that value unchanged,
/// and the stack pointer returns to its pre-push position: the push
/// stores the word four bytes below the old pointer, and reading there —
/// which is what the pop does before raising the pointer by four — gives
/// the word back.
pub proof fn lemma_push_pop_round_trip(ram: Seq<u8>, sp: int, v: u32)
    requires
        4 <= sp <= ram.len(),
    ensures
        word_at(store_word(ram, sp - 4, v), sp - 4) == v,
        (sp - 4) + 4 == sp,
{
    lemma_store_word(ram, sp - 4, v);
}

/// A goto whose computed target lands outside `[0, RAM_SIZE)` halts
/// execution and leaves memory and the stack pointer exactly as they
/// were.
pub proof fn lemma_goto_fault_preserves_memory(ram: Seq<u8>, pc: int, sp: int)
    requires
        ram.len() == RAM_SIZE,
        0 <= pc,
        pc + 4 <= RAM_SIZE,
        0 <= sp <= RAM_SIZE,
        opcode(word_at(ram, pc)) == 0x7,
        ({
            let t = pc + sx26(field26(word_at(ram, pc))) * 4;
            t < 0 || t >= RAM_SIZE
        }),
    ensures
        spec_step(ram, pc, sp).res == StepResult::Halt,
        spec_step(ram, pc, sp).ram == ram,
        spec_step(ram, pc, sp).sp == sp,
{
}

/// A call followed by the return it lands on restores the program
/// counter to the instruction immediately after the call site, with the
/// stack pointer back where it was: the call pushes the address of the
/// next instruction, and a return with an empty frame pops it straight
/// back into the program counter.
pub proof fn lemma_call_return_round_trip(ram: Seq<u8>, pc: int, sp: int)
    requires
        ram.len() == RAM_SIZE,
        0 <= pc,
        pc + 4 <= RAM_SIZE,
        4 <= sp <= RAM_SIZE,
        opcode(word_at(ram, pc)) == 0x5,
        ({
            let t = pc + sx26(field26(word_at(ram, pc))) * 4;
            0 <= t && t < RAM_SIZE
        }),
        ({
            let s1 = spec_step(ram, pc, sp);
            &&& s1.pc + 4 <= RAM_SIZE
            &&& opcode(word_at(s1.ram, s1.pc)) == 0x6
            &&& imm28(word_at(s1.ram, s1.pc)) == 0
        }),
    ensures
        ({
            let s1 = spec_step(ram, pc, sp);
            let s2 = spec_step(s1.ram, s1.pc, s1.sp);
            &&& s2.pc == pc + 4
            &&& s2.sp == sp
            &&& s2.res == StepResult::Continue
        }),
{
    lemma_store_word(ram, sp - 4, (pc + 4) as u32);
}

/// Decode-time leniency: an unrecognized top-level opcode, an
/// unrecognized binary-arithmetic sub-opcode and an unrecognized
/// unary-arithmetic sub-opcode are all silently ignored — the program
/// counter advances past the instruction and nothing else changes: no
/// stack state is consumed, no fault is raised, nothing is printed.
pub proof fn lemma_decode_leniency(ram: Seq<u8>, pc: int, sp: int)
    requires
        ram.len() == RAM_SIZE,
        0 <= pc,
        pc + 4 <= RAM_SIZE,
        0 <= sp <= RAM_SIZE,
        ({
            let w = word_at(ram, pc);
            ||| opcode(w) == 0xA
            ||| opcode(w) == 0xC
            ||| (opcode(w) == 0x2 && !binop_known(subcode(w)))
            ||| (opcode(w) == 0x3 && !unop_known(subcode(w)))
        }),
    ensures
        spec_step(ram, pc, sp).res == StepResult::Continue,
        spec_step(ram, pc, sp).ram == ram,
        spec_step(ram, pc, sp).sp == sp,
        spec_step(ram, pc, sp).pc == pc + 4,
        spec_step(ram, pc, sp).out == Seq::<u8>::empty(),
        spec_step(ram, pc, sp).err == Seq::<u8>::empty(),
{
}

/// An image whose first four bytes are not the magic marker is rejected
/// as `InvalidFormat`, whatever follows them: the loader builds no
/// machine from it, so no instruction of it is ever executed.
pub proof fn lemma_bad_magic_never_loads(bytes: Seq<u8>)
    requires
        !magic_ok(bytes),
    ensures
        load_outcome(bytes) == Err::<(Seq<u8>, int, int), LoadError>(LoadError::InvalidFormat),
{
}

/// A stack dump on an empty stack — the stack pointer at the very top of
/// memory — produces no output at all.
pub proof fn lemma_dump_empty(ram: Seq<u8>, pc: int, sp: int)
    requires
        ram.len() == RAM_SIZE,
        0 <= pc,
        pc + 4 <= RAM_SIZE,
        sp == RAM_SIZE,
        opcode(word_at(ram, pc)) == 0xE,
    ensures
        spec_step(ram, pc, sp).out == Seq::<u8>::empty(),
        spec_step(ram, pc, sp).err == Seq::<u8>::empty(),
{
}

} // verus!
