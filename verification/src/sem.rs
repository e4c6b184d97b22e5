//! The transition relation of the machine, one instruction per step.
//!
//! `spec_step` is the mathematical meaning of the fetch-decode-execute
//! cycle: from a memory image, program counter and stack pointer it gives
//! the next state, the signal handed to the driver, and the exact bytes
//! written to the standard output and error streams.  The executable
//! engine in `step` is proved to agree with it on every well-formed state.
//!
//! Bounds policy: wherever an address computation leaves `[0, RAM_SIZE]`,
//! an instruction family either clamps, ignores the access, or halts;
//! which of the three applies is part of each family's contract below.
//! No access ever faults the process.

use vstd::prelude::*;
use crate::RAM_SIZE;
use crate::words::{word_at, store_word, wrap32, to_signed, as_i8_bits};
use crate::decode::{
    opcode, subcode, imm28, imm24, field26, field23, cond3, cond2, field12_hi, field12_lo,
    fmt2, byte0, sx12, sx23, sx24, sx26,
};
use crate::arith::{tdiv, tmod, asr32};
use crate::render::{
    radix_digits, pad_zeros, dec_signed, nl, hex_marked, bin_marked, oct_marked, lit_prompt,
    lit_debug_value, lit_debug_pc, lit_debug_sp, lit_call_fault, lit_goto_fault, lit_if_fault,
    lit_jump_fault, lit_dump_sep,
};
use crate::machine::StepResult;

verus! {

/// The outcome of one step: successor state, signal, and stream output.
pub struct Next {
    pub ram: Seq<u8>,
    pub pc: int,
    pub sp: int,
    pub res: StepResult,
    pub out: Seq<u8>,
    pub err: Seq<u8>,
}

/// An outcome that writes nothing to either stream.
pub open spec fn quiet(ram: Seq<u8>, pc: int, sp: int, res: StepResult) -> Next {
    Next { ram, pc, sp, res, out: Seq::<u8>::empty(), err: Seq::<u8>::empty() }
}

/// Miscellaneous family (top nibble 0): exit, swap, input, string input,
/// debug; any other sub-opcode halts.  `pc` is already advanced.
pub open spec fn step_misc(ram: Seq<u8>, pc: int, sp: int, w: u32) -> Next {
    let sub = subcode(w);
    if sub == 0 {
        quiet(ram, pc, sp, StepResult::Exit(as_i8_bits(byte0(w))))
    } else if sub == 1 {
        let a = sp + sx12(field12_hi(w)) * 4;
        let b = sp + sx12(field12_lo(w)) * 4;
        if 0 <= a && a + 4 <= RAM_SIZE && 0 <= b && b + 4 <= RAM_SIZE {
            let va = word_at(ram, a);
            let vb = word_at(ram, b);
            quiet(store_word(store_word(ram, a, vb), b, va), pc, sp, StepResult::Continue)
        } else {
            quiet(ram, pc, sp, StepResult::Continue)
        }
    } else if sub == 4 {
        Next {
            ram,
            pc,
            sp,
            res: StepResult::Input,
            out: lit_prompt(),
            err: Seq::<u8>::empty(),
        }
    } else if sub == 5 {
        quiet(ram, pc, sp, StepResult::StrInput(imm24(w)))
    } else if sub == 0xF {
        Next {
            ram,
            pc,
            sp,
            res: StepResult::Continue,
            out: Seq::<u8>::empty(),
            err: lit_debug_value() + radix_digits(imm24(w) as int, 10, false) + lit_debug_pc()
                + radix_digits(pc, 10, false) + lit_debug_sp() + radix_digits(sp, 10, false)
                + nl(),
        }
    } else {
        quiet(ram, pc, sp, StepResult::Halt)
    }
}

/// Pop family (top nibble 1): discard bytes from the stack; an immediate
/// of zero discards one word; the stack pointer clamps at the top.
pub open spec fn step_pop(ram: Seq<u8>, pc: int, sp: int, w: u32) -> Next {
    let raw = imm28(w);
    let bytes: int = if raw == 0 {
        4
    } else {
        raw as int
    };
    let sp2: int = if sp + bytes > RAM_SIZE {
        RAM_SIZE as int
    } else {
        sp + bytes
    };
    quiet(ram, pc, sp2, StepResult::Continue)
}

/// Whether a binary arithmetic sub-opcode is recognized.
pub open spec fn binop_known(sub: u32) -> bool {
    sub <= 9 || sub == 0xB
}

/// The result of a recognized binary operation on the two word patterns,
/// left operand first.  All results wrap at 32 bits; division and modulo
/// by zero give zero; shifts use only the low five bits of the count.
pub open spec fn binop_val(sub: u32, l: u32, r: u32) -> u32
    recommends
        binop_known(sub),
{
    if sub == 0 {
        wrap32(l + r)
    } else if sub == 1 {
        wrap32(l - r)
    } else if sub == 2 {
        wrap32(l * r)
    } else if sub == 3 {
        if r == 0 {
            0u32
        } else {
            wrap32(tdiv(to_signed(l), to_signed(r)))
        }
    } else if sub == 4 {
        if r == 0 {
            0u32
        } else {
            wrap32(tmod(to_signed(l), to_signed(r)))
        }
    } else if sub == 5 {
        l & r
    } else if sub == 6 {
        l | r
    } else if sub == 7 {
        l ^ r
    } else if sub == 8 {
        l << (r % 32)
    } else if sub == 9 {
        l >> (r % 32)
    } else {
        asr32(l, r)
    }
}

/// Binary arithmetic family (top nibble 2): pop right then left, push the
/// result.  An unrecognized sub-opcode is a silent no-op: it touches no
/// stack state and can never fault.  For a recognized one, popping past
/// the top of memory halts.
pub open spec fn step_binary(ram: Seq<u8>, pc: int, sp: int, w: u32) -> Next {
    let sub = subcode(w);
    if !binop_known(sub) {
        quiet(ram, pc, sp, StepResult::Continue)
    } else if sp + 8 > RAM_SIZE {
        quiet(ram, pc, sp, StepResult::Halt)
    } else {
        let r = word_at(ram, sp);
        let l = word_at(ram, sp + 4);
        quiet(store_word(ram, sp + 4, binop_val(sub, l, r)), pc, sp + 4, StepResult::Continue)
    }
}

/// Whether a unary arithmetic sub-opcode is recognized.
pub open spec fn unop_known(sub: u32) -> bool {
    sub <= 1
}

/// Negation or bitwise complement of the word pattern.
pub open spec fn unop_val(sub: u32, v: u32) -> u32
    recommends
        unop_known(sub),
{
    if sub == 0 {
        wrap32(-(v as int))
    } else {
        !v
    }
}

/// Unary arithmetic family (top nibble 3): pop one operand, push the
/// result.  An unrecognized sub-opcode is a silent no-op: it touches no
/// stack state and can never fault.  For a recognized one, popping past
/// the top of memory halts.
pub open spec fn step_unary(ram: Seq<u8>, pc: int, sp: int, w: u32) -> Next {
    let sub = subcode(w);
    if !unop_known(sub) {
        quiet(ram, pc, sp, StepResult::Continue)
    } else if sp + 4 > RAM_SIZE {
        quiet(ram, pc, sp, StepResult::Halt)
    } else {
        let v = word_at(ram, sp);
        quiet(store_word(ram, sp, unop_val(sub, v)), pc, sp, StepResult::Continue)
    }
}

/// One byte of stored text rendered as the character it encodes, in
/// UTF-8: bytes up to 0x7F stand for themselves, higher bytes take the
/// two-byte encoding of their code point.
pub open spec fn utf8_byte(b: u8) -> Seq<u8> {
    if b < 0x80 {
        seq![b]
    } else {
        seq![(0xC0 + b / 64) as u8, (0x80 + b % 64) as u8]
    }
}

/// The characters emitted for a word's bytes: a zero byte ends the text,
/// the filler byte 0x01 is skipped, everything else prints.
pub open spec fn emit_chunk(bs: Seq<u8>) -> Seq<u8>
    decreases bs.len(),
{
    if bs.len() == 0 {
        Seq::<u8>::empty()
    } else if bs[0] == 0 {
        Seq::<u8>::empty()
    } else if bs[0] == 1 {
        emit_chunk(bs.skip(1))
    } else {
        utf8_byte(bs[0]) + emit_chunk(bs.skip(1))
    }
}

/// Whether a terminating zero byte occurs in the word's bytes.
pub open spec fn has_zero(bs: Seq<u8>) -> bool {
    exists|i: int| 0 <= i < bs.len() && bs[i] == 0
}

/// The four bytes of a word, little-endian.
pub open spec fn le4(w: u32) -> Seq<u8> {
    seq![
        (w % 0x100) as u8,
        ((w / 0x100) % 0x100) as u8,
        ((w / 0x1_0000) % 0x100) as u8,
        ((w / 0x100_0000) % 0x100) as u8,
    ]
}

/// Text printed from `addr` forward, word by word, ending at the first
/// zero byte or at the end of memory.
pub open spec fn sprint_from(ram: Seq<u8>, addr: int) -> Seq<u8>
    decreases RAM_SIZE - addr,
{
    if addr < 0 || addr + 4 > RAM_SIZE {
        Seq::<u8>::empty()
    } else {
        let bs = le4(word_at(ram, addr));
        if has_zero(bs) {
            emit_chunk(bs)
        } else {
            emit_chunk(bs) + sprint_from(ram, addr + 4)
        }
    }
}

/// String print family (top nibble 4): print text at a stack-relative
/// address; an address outside memory prints nothing.
pub open spec fn step_sprint(ram: Seq<u8>, pc: int, sp: int, w: u32) -> Next {
    let start = sp + sx26(field26(w)) * 4;
    Next {
        ram,
        pc,
        sp,
        res: StepResult::Continue,
        out: sprint_from(ram, start),
        err: Seq::<u8>::empty(),
    }
}

/// Call family (top nibble 5): push the return address, then jump to the
/// instruction's own address plus the scaled offset.  A full stack halts;
/// a target outside memory halts with a diagnostic, the return address
/// already pushed.
pub open spec fn step_call(ram: Seq<u8>, pc: int, sp: int, w: u32) -> Next {
    if sp < 4 {
        quiet(ram, pc, sp, StepResult::Halt)
    } else {
        let ram2 = store_word(ram, sp - 4, pc as u32);
        let target = (pc - 4) + sx26(field26(w)) * 4;
        if 0 <= target && target < RAM_SIZE {
            quiet(ram2, target, sp - 4, StepResult::Continue)
        } else {
            Next {
                ram: ram2,
                pc,
                sp: sp - 4,
                res: StepResult::Halt,
                out: Seq::<u8>::empty(),
                err: lit_call_fault() + hex_marked(wrap32(target)) + nl(),
            }
        }
    }
}

/// Return family (top nibble 6): discard the immediate byte count from
/// the stack (clamped to the last word), pop the return address into the
/// program counter.  A return address beyond memory halts.
pub open spec fn step_return(ram: Seq<u8>, pc: int, sp: int, w: u32) -> Next {
    let raw = imm28(w);
    let sp1: int = if sp + raw > RAM_SIZE - 4 {
        RAM_SIZE - 4
    } else {
        sp + raw
    };
    let ret = word_at(ram, sp1);
    if ret > RAM_SIZE {
        quiet(ram, pc, sp1 + 4, StepResult::Halt)
    } else {
        quiet(ram, ret as int, sp1 + 4, StepResult::Continue)
    }
}

/// Goto family (top nibble 7): jump to the instruction's own address plus
/// the scaled offset; a target outside memory halts with a diagnostic and
/// changes nothing else.
pub open spec fn step_goto(ram: Seq<u8>, pc: int, sp: int, w: u32) -> Next {
    let target = (pc - 4) + sx26(field26(w)) * 4;
    if 0 <= target && target < RAM_SIZE {
        quiet(ram, target, sp, StepResult::Continue)
    } else {
        Next {
            ram,
            pc,
            sp,
            res: StepResult::Halt,
            out: Seq::<u8>::empty(),
            err: lit_goto_fault() + hex_marked(wrap32(target)) + nl(),
        }
    }
}

/// Whether the three-bit condition holds of the two signed readings;
/// the two unassigned codes never hold.
pub open spec fn cond3_holds(c: u32, l: u32, r: u32) -> bool {
    if c == 0 {
        l == r
    } else if c == 1 {
        l != r
    } else if c == 2 {
        to_signed(l) < to_signed(r)
    } else if c == 3 {
        to_signed(l) > to_signed(r)
    } else if c == 4 {
        to_signed(l) <= to_signed(r)
    } else if c == 5 {
        to_signed(l) >= to_signed(r)
    } else {
        false
    }
}

/// Binary conditional jump family (top nibble 8): peek the top two words
/// without popping; the left operand reads as zero when its address is
/// outside memory.  Peeking the right operand off the top of memory
/// halts; a taken jump to a target outside memory halts with a
/// diagnostic.
pub open spec fn step_ifcmp(ram: Seq<u8>, pc: int, sp: int, w: u32) -> Next {
    if sp + 4 > RAM_SIZE {
        quiet(ram, pc, sp, StepResult::Halt)
    } else {
        let right = word_at(ram, sp);
        let left: u32 = if sp + 8 <= RAM_SIZE {
            word_at(ram, sp + 4)
        } else {
            0u32
        };
        if cond3_holds(cond3(w), left, right) {
            let target = (pc - 4) + sx23(field23(w)) * 4;
            if 0 <= target && target < RAM_SIZE {
                quiet(ram, target, sp, StepResult::Continue)
            } else {
                Next {
                    ram,
                    pc,
                    sp,
                    res: StepResult::Halt,
                    out: Seq::<u8>::empty(),
                    err: lit_if_fault() + hex_marked(wrap32(target)) + nl(),
                }
            }
        } else {
            quiet(ram, pc, sp, StepResult::Continue)
        }
    }
}

/// Whether the two-bit condition holds of the signed reading.
pub open spec fn cond2_holds(c: u32, v: u32) -> bool {
    if c == 0 {
        v == 0
    } else if c == 1 {
        v != 0
    } else if c == 2 {
        to_signed(v) < 0
    } else {
        to_signed(v) >= 0
    }
}

/// Unary conditional jump family (top nibble 9): peek the top word
/// without popping.  Peeking off the top of memory halts; a taken jump to
/// a target outside memory halts with a diagnostic.
pub open spec fn step_iftst(ram: Seq<u8>, pc: int, sp: int, w: u32) -> Next {
    if sp + 4 > RAM_SIZE {
        quiet(ram, pc, sp, StepResult::Halt)
    } else {
        let v = word_at(ram, sp);
        if cond2_holds(cond2(w), v) {
            let target = (pc - 4) + sx24(imm24(w)) * 4;
            if 0 <= target && target < RAM_SIZE {
                quiet(ram, target, sp, StepResult::Continue)
            } else {
                Next {
                    ram,
                    pc,
                    sp,
                    res: StepResult::Halt,
                    out: Seq::<u8>::empty(),
                    err: lit_jump_fault() + hex_marked(wrap32(target)) + nl(),
                }
            }
        } else {
            quiet(ram, pc, sp, StepResult::Continue)
        }
    }
}

/// Duplicate family (top nibble B): read the word at a stack-relative
/// address and push it.  An address outside memory, or a full stack,
/// halts.
pub open spec fn step_dup(ram: Seq<u8>, pc: int, sp: int, w: u32) -> Next {
    let addr = sp + sx26(field26(w)) * 4;
    if addr < 0 || addr + 4 > RAM_SIZE || sp < 4 {
        quiet(ram, pc, sp, StepResult::Halt)
    } else {
        let v = word_at(ram, addr);
        quiet(store_word(ram, sp - 4, v), pc, sp - 4, StepResult::Continue)
    }
}

/// The line printed for one word in the chosen format, newline included.
pub open spec fn print_line(f: u32, v: u32) -> Seq<u8> {
    let body = if f == 0 {
        dec_signed(to_signed(v))
    } else if f == 1 {
        hex_marked(v)
    } else if f == 2 {
        bin_marked(v)
    } else {
        oct_marked(v)
    };
    body + nl()
}

/// Formatted print family (top nibble D): print the word at a
/// stack-relative address as decimal, hex, binary or octal.  An address
/// outside memory halts.
pub open spec fn step_print(ram: Seq<u8>, pc: int, sp: int, w: u32) -> Next {
    let addr = sp + sx26(field26(w)) * 4;
    if addr < 0 || addr + 4 > RAM_SIZE {
        quiet(ram, pc, sp, StepResult::Halt)
    } else {
        Next {
            ram,
            pc,
            sp,
            res: StepResult::Continue,
            out: print_line(fmt2(w), word_at(ram, addr)),
            err: Seq::<u8>::empty(),
        }
    }
}

/// The dump lines from `addr` to the top of memory: each full word as
/// `offset: value`, both zero-padded lowercase hex.
pub open spec fn dump_from(ram: Seq<u8>, sp: int, addr: int) -> Seq<u8>
    decreases RAM_SIZE - addr,
{
    if addr < sp || addr + 4 > RAM_SIZE {
        Seq::<u8>::empty()
    } else {
        pad_zeros(radix_digits(addr - sp, 16, false), 4) + lit_dump_sep() + pad_zeros(
            radix_digits(word_at(ram, addr) as int, 16, false),
            8,
        ) + nl() + dump_from(ram, sp, addr + 4)
    }
}

/// Stack dump family (top nibble E): print every stack word; an empty
/// stack prints nothing.
pub open spec fn step_dump(ram: Seq<u8>, pc: int, sp: int) -> Next {
    Next {
        ram,
        pc,
        sp,
        res: StepResult::Continue,
        out: dump_from(ram, sp, sp),
        err: Seq::<u8>::empty(),
    }
}

/// Push family (top nibble F): push the 28-bit immediate, widened
/// unsigned with no sign extension.  A full stack halts.
pub open spec fn step_pushi(ram: Seq<u8>, pc: int, sp: int, w: u32) -> Next {
    if sp < 4 {
        quiet(ram, pc, sp, StepResult::Halt)
    } else {
        quiet(store_word(ram, sp - 4, imm28(w)), pc, sp - 4, StepResult::Continue)
    }
}

/// One whole step: halt if the fetch would run off the end of memory,
/// otherwise fetch the word at the program counter, advance it by four,
/// and dispatch on the top nibble.  The two unassigned families A and C
/// are ignored.
pub open spec fn spec_step(ram: Seq<u8>, pc: int, sp: int) -> Next {
    if pc < 0 || pc + 4 > RAM_SIZE {
        quiet(ram, pc, sp, StepResult::Halt)
    } else {
        let w = word_at(ram, pc);
        let pc1 = pc + 4;
        let op = opcode(w);
        if op == 0x0 {
            step_misc(ram, pc1, sp, w)
        } else if op == 0x1 {
            step_pop(ram, pc1, sp, w)
        } else if op == 0x2 {
            step_binary(ram, pc1, sp, w)
        } else if op == 0x3 {
            step_unary(ram, pc1, sp, w)
        } else if op == 0x4 {
            step_sprint(ram, pc1, sp, w)
        } else if op == 0x5 {
            step_call(ram, pc1, sp, w)
        } else if op == 0x6 {
            step_return(ram, pc1, sp, w)
        } else if op == 0x7 {
            step_goto(ram, pc1, sp, w)
        } else if op == 0x8 {
            step_ifcmp(ram, pc1, sp, w)
        } else if op == 0x9 {
            step_iftst(ram, pc1, sp, w)
        } else if op == 0xB {
            step_dup(ram, pc1, sp, w)
        } else if op == 0xD {
            step_print(ram, pc1, sp, w)
        } else if op == 0xE {
            step_dump(ram, pc1, sp)
        } else if op == 0xF {
            step_pushi(ram, pc1, sp, w)
        } else {
            quiet(ram, pc1, sp, StepResult::Continue)
        }
    }
}

/// A step from a well-formed state leaves the state well-formed: memory
/// keeps its size and both pointers stay within `[0, RAM_SIZE]`.
pub proof fn lemma_step_wf(ram: Seq<u8>, pc: int, sp: int)
    requires
        ram.len() == RAM_SIZE,
        0 <= pc <= RAM_SIZE,
        0 <= sp <= RAM_SIZE,
    ensures
        spec_step(ram, pc, sp).ram.len() == RAM_SIZE,
        0 <= spec_step(ram, pc, sp).pc <= RAM_SIZE,
        0 <= spec_step(ram, pc, sp).sp <= RAM_SIZE,
{
    broadcast use vstd::seq_lib::group_seq_properties;

    let n = spec_step(ram, pc, sp);
    if !(pc < 0 || pc + 4 > RAM_SIZE) {
        let w = word_at(ram, pc);
        let op = opcode(w);
        if op == 0x0 {
            let sub = subcode(w);
            if sub == 1 {
                let a = sp + sx12(field12_hi(w)) * 4;
                let b = sp + sx12(field12_lo(w)) * 4;
                if 0 <= a && a + 4 <= RAM_SIZE && 0 <= b && b + 4 <= RAM_SIZE {
                    assert(n.ram.len() == RAM_SIZE);
                }
            }
        }
    }
}

} // verus!
