//! The executable fetch-decode-execute engine.
//!
//! `execute_instruction` performs one cycle and is proved to agree with
//! the transition relation `spec_step` on every well-formed machine.
//! Each instruction family has its own handler, verified against the
//! family's own piece of the relation.

use vstd::prelude::*;
use crate::RAM_SIZE;
use crate::machine::{Machine, StepResult, StepIo};
use crate::mem::{read_u32, write_u32, pop, push};
use crate::decode::{
    x_opcode, x_subcode, x_imm28, x_imm24, x_off26, x_off23, x_off24, x_off12, x_cond3, x_cond2,
    x_field12,
};
use crate::arith::{
    add_w, sub_w, mul_w, div_w, mod_w, shl_w, shr_w, asr_w, neg_w, signed_of, encode_signed,
};
use crate::render::{
    emit_radix, emit_radix_padded, emit_dec_signed, emit_nl, emit_hex_marked, emit_bin_marked,
    emit_oct_marked, emit_prompt, emit_debug_value, emit_debug_pc, emit_debug_sp, emit_call_fault,
    emit_goto_fault, emit_if_fault, emit_jump_fault, emit_dump_sep,
};
use crate::sem::{
    Next, spec_step, step_misc, step_pop, step_binary, step_unary, step_sprint, step_call,
    step_return, step_goto, step_ifcmp, step_iftst, step_dup, step_print, step_dump, step_pushi,
    emit_chunk, has_zero, le4, sprint_from, dump_from,
};

verus! {

/// The executable state and outputs agree with an outcome of the
/// transition relation.
pub open spec fn matches_next(m: Machine, r: StepResult, out: Seq<u8>, err: Seq<u8>, n: Next) -> bool {
    &&& m.ram@ == n.ram
    &&& m.pc == n.pc
    &&& m.sp == n.sp
    &&& r == n.res
    &&& out == n.out
    &&& err == n.err
}

/// An outcome carrying a signal and no stream output.
fn io_quiet(r: StepResult) -> (io: StepIo)
    ensures
        io.result == r,
        io.out@ == Seq::<u8>::empty(),
        io.err@ == Seq::<u8>::empty(),
{
    StepIo { result: r, out: Vec::new(), err: Vec::new() }
}

/// Miscellaneous family handler; the program counter is already advanced.
fn do_misc(m: &mut Machine, w: u32) -> (io: StepIo)
    requires
        old(m).wf(),
    ensures
        matches_next(
            *final(m),
            io.result,
            io.out@,
            io.err@,
            step_misc(old(m).ram@, old(m).pc as int, old(m).sp as int, w),
        ),
{
    let sub = x_subcode(w);
    if sub == 0 {
        proof {
            assert(w & 0xFF < 0x100) by (bit_vector);
        }
        let b = w & 0xFF;
        let code: i8 = if b >= 0x80 {
            (b as i32 - 0x100) as i8
        } else {
            b as i8
        };
        io_quiet(StepResult::Exit(code))
    } else if sub == 1 {
        let (hi, lo) = x_field12(w);
        let fo = x_off12(hi);
        let to = x_off12(lo);
        let a: i64 = m.sp as i64 + fo as i64 * 4;
        let b: i64 = m.sp as i64 + to as i64 * 4;
        if 0 <= a && a + 4 <= RAM_SIZE as i64 && 0 <= b && b + 4 <= RAM_SIZE as i64 {
            let ai = a as usize;
            let bi = b as usize;
            let va = read_u32(m.ram.as_slice(), ai);
            let vb = read_u32(m.ram.as_slice(), bi);
            write_u32(&mut m.ram, ai, vb);
            write_u32(&mut m.ram, bi, va);
        }
        io_quiet(StepResult::Continue)
    } else if sub == 4 {
        let mut out: Vec<u8> = Vec::new();
        emit_prompt(&mut out);
        StepIo { result: StepResult::Input, out, err: Vec::new() }
    } else if sub == 5 {
        io_quiet(StepResult::StrInput(x_imm24(w)))
    } else if sub == 0xF {
        let mut err: Vec<u8> = Vec::new();
        emit_debug_value(&mut err);
        emit_radix(&mut err, x_imm24(w), 10, false);
        emit_debug_pc(&mut err);
        emit_radix(&mut err, m.pc as u32, 10, false);
        emit_debug_sp(&mut err);
        emit_radix(&mut err, m.sp as u32, 10, false);
        emit_nl(&mut err);
        StepIo { result: StepResult::Continue, out: Vec::new(), err }
    } else {
        io_quiet(StepResult::Halt)
    }
}


/// Append the characters of one stored byte: UTF-8 for its code point.
fn push_char(out: &mut Vec<u8>, b: u8)
    ensures
        final(out)@ == old(out)@ + crate::sem::utf8_byte(b),
{
    if b < 0x80 {
        out.push(b);
    } else {
        out.push((0xC0u32 + b as u32 / 64) as u8);
        out.push((0x80u32 + b as u32 % 64) as u8);
    }
    proof {
        assert(out@ =~= old(out)@ + crate::sem::utf8_byte(b));
    }
}

/// Emit the printable characters of one word's bytes; reports whether a
/// terminating zero byte was seen.
#[verifier::rlimit(100)]
fn emit_text_chunk(out: &mut Vec<u8>, w: u32) -> (stopped: bool)
    ensures
        final(out)@ == old(out)@ + emit_chunk(le4(w)),
        stopped == has_zero(le4(w)),
{
    let b0 = (w % 0x100) as u8;
    let b1 = ((w / 0x100) % 0x100) as u8;
    let b2 = ((w / 0x1_0000) % 0x100) as u8;
    let b3 = ((w / 0x100_0000) % 0x100) as u8;
    proof {
        reveal_with_fuel(crate::sem::emit_chunk, 6);
        assert(le4(w) =~= seq![b0, b1, b2, b3]);
        assert(seq![b0, b1, b2, b3].skip(1) =~= seq![b1, b2, b3]);
        assert(seq![b1, b2, b3].skip(1) =~= seq![b2, b3]);
        assert(seq![b2, b3].skip(1) =~= seq![b3]);
        assert(seq![b3].skip(1) =~= Seq::<u8>::empty());
    }
    if b0 == 0 {
        proof {
            assert(le4(w)[0] == 0);
            assert(out@ =~= old(out)@ + emit_chunk(le4(w)));
        }
        return true;
    }
    if b0 != 1 {
        push_char(out, b0);
    }
    if b1 == 0 {
        proof {
            reveal_with_fuel(crate::sem::emit_chunk, 6);
            assert(le4(w)[1] == 0);
            assert(seq![b0, b1, b2, b3].skip(1) =~= seq![b1, b2, b3]);
            assert(seq![b1, b2, b3].skip(1) =~= seq![b2, b3]);
            assert(seq![b2, b3].skip(1) =~= seq![b3]);
            assert(out@ =~= old(out)@ + emit_chunk(le4(w)));
        }
        return true;
    }
    if b1 != 1 {
        push_char(out, b1);
    }
    if b2 == 0 {
        proof {
            reveal_with_fuel(crate::sem::emit_chunk, 6);
            assert(le4(w)[2] == 0);
            assert(seq![b0, b1, b2, b3].skip(1) =~= seq![b1, b2, b3]);
            assert(seq![b1, b2, b3].skip(1) =~= seq![b2, b3]);
            assert(seq![b2, b3].skip(1) =~= seq![b3]);
            assert(out@ =~= old(out)@ + emit_chunk(le4(w)));
        }
        return true;
    }
    if b2 != 1 {
        push_char(out, b2);
    }
    if b3 == 0 {
        proof {
            reveal_with_fuel(crate::sem::emit_chunk, 6);
            assert(le4(w)[3] == 0);
            assert(seq![b0, b1, b2, b3].skip(1) =~= seq![b1, b2, b3]);
            assert(seq![b1, b2, b3].skip(1) =~= seq![b2, b3]);
            assert(seq![b2, b3].skip(1) =~= seq![b3]);
            assert(out@ =~= old(out)@ + emit_chunk(le4(w)));
        }
        return true;
    }
    if b3 != 1 {
        push_char(out, b3);
    }
    proof {
        reveal_with_fuel(crate::sem::emit_chunk, 6);
        assert(seq![b0, b1, b2, b3].skip(1) =~= seq![b1, b2, b3]);
        assert(seq![b1, b2, b3].skip(1) =~= seq![b2, b3]);
        assert(seq![b2, b3].skip(1) =~= seq![b3]);
        assert(seq![b3].skip(1) =~= Seq::<u8>::empty());
        assert(forall|i: int| 0 <= i < 4 ==> le4(w)[i] != 0);
        assert(out@ =~= old(out)@ + emit_chunk(le4(w)));
    }
    false
}

/// String print family handler.
fn do_sprint(m: &Machine, w: u32) -> (io: StepIo)
    requires
        m.wf(),
    ensures
        matches_next(
            *m,
            io.result,
            io.out@,
            io.err@,
            step_sprint(m.ram@, m.pc as int, m.sp as int, w),
        ),
{
    let off = x_off26(w);
    let start: i64 = m.sp as i64 + off as i64 * 4;
    let ghost start_i = start as int;
    let mut out: Vec<u8> = Vec::new();
    let mut addr: i64 = start;
    let mut stopped: bool = false;
    while !stopped && 0 <= addr && addr + 4 <= RAM_SIZE as i64
        invariant
            m.wf(),
            start <= addr,
            -0x1_0000_0000 <= addr <= 0x1_0000_0000,
            !stopped ==> sprint_from(m.ram@, start_i) == out@ + sprint_from(m.ram@, addr as int),
            stopped ==> out@ == sprint_from(m.ram@, start_i),
        decreases (if stopped { 0int } else { RAM_SIZE + 8 - addr }),
    {
        let w2 = read_u32(m.ram.as_slice(), addr as usize);
        let ghost pre = out@;
        let st = emit_text_chunk(&mut out, w2);
        proof {
            assert(sprint_from(m.ram@, addr as int) == (if has_zero(le4(w2)) {
                emit_chunk(le4(w2))
            } else {
                emit_chunk(le4(w2)) + sprint_from(m.ram@, addr + 4)
            }));
            if st {
                assert(out@ =~= pre + sprint_from(m.ram@, addr as int));
            } else {
                assert(out@ + sprint_from(m.ram@, addr + 4) =~= pre + sprint_from(
                    m.ram@,
                    addr as int,
                ));
            }
        }
        if st {
            stopped = true;
        } else {
            addr = addr + 4;
        }
    }
    proof {
        if !stopped {
            assert(sprint_from(m.ram@, addr as int) =~= Seq::<u8>::empty());
            assert(out@ =~= out@ + Seq::<u8>::empty());
        }
    }
    StepIo { result: StepResult::Continue, out, err: Vec::new() }
}

/// Pop family handler.
fn do_pop(m: &mut Machine, w: u32) -> (io: StepIo)
    requires
        old(m).wf(),
    ensures
        matches_next(
            *final(m),
            io.result,
            io.out@,
            io.err@,
            step_pop(old(m).ram@, old(m).pc as int, old(m).sp as int, w),
        ),
{
    let raw = x_imm28(w);
    let bytes: usize = if raw == 0 {
        4
    } else {
        raw as usize
    };
    let ns = m.sp + bytes;
    m.sp = if ns > RAM_SIZE {
        RAM_SIZE
    } else {
        ns
    };
    io_quiet(StepResult::Continue)
}

/// Binary arithmetic family handler.
fn do_binary(m: &mut Machine, w: u32) -> (io: StepIo)
    requires
        old(m).wf(),
    ensures
        matches_next(
            *final(m),
            io.result,
            io.out@,
            io.err@,
            step_binary(old(m).ram@, old(m).pc as int, old(m).sp as int, w),
        ),
{
    let sub = x_subcode(w);
    if !(sub <= 9 || sub == 0xB) {
        return io_quiet(StepResult::Continue);
    }
    if m.sp + 8 > RAM_SIZE {
        return io_quiet(StepResult::Halt);
    }
    let r = pop(&mut m.sp, m.ram.as_slice());
    let l = pop(&mut m.sp, m.ram.as_slice());
    let val: u32 = if sub == 0 {
        add_w(l, r)
    } else if sub == 1 {
        sub_w(l, r)
    } else if sub == 2 {
        mul_w(l, r)
    } else if sub == 3 {
        div_w(l, r)
    } else if sub == 4 {
        mod_w(l, r)
    } else if sub == 5 {
        l & r
    } else if sub == 6 {
        l | r
    } else if sub == 7 {
        l ^ r
    } else if sub == 8 {
        shl_w(l, r)
    } else if sub == 9 {
        shr_w(l, r)
    } else {
        asr_w(l, r)
    };
    push(&mut m.sp, &mut m.ram, val);
    io_quiet(StepResult::Continue)
}

/// Unary arithmetic family handler.
fn do_unary(m: &mut Machine, w: u32) -> (io: StepIo)
    requires
        old(m).wf(),
    ensures
        matches_next(
            *final(m),
            io.result,
            io.out@,
            io.err@,
            step_unary(old(m).ram@, old(m).pc as int, old(m).sp as int, w),
        ),
{
    let sub = x_subcode(w);
    if sub > 1 {
        return io_quiet(StepResult::Continue);
    }
    if m.sp + 4 > RAM_SIZE {
        return io_quiet(StepResult::Halt);
    }
    let v = pop(&mut m.sp, m.ram.as_slice());
    let val: u32 = if sub == 0 {
        neg_w(v)
    } else {
        !v
    };
    push(&mut m.sp, &mut m.ram, val);
    io_quiet(StepResult::Continue)
}

/// Call family handler.
fn do_call(m: &mut Machine, w: u32) -> (io: StepIo)
    requires
        old(m).wf(),
        4 <= old(m).pc,
    ensures
        matches_next(
            *final(m),
            io.result,
            io.out@,
            io.err@,
            step_call(old(m).ram@, old(m).pc as int, old(m).sp as int, w),
        ),
{
    if m.sp < 4 {
        return io_quiet(StepResult::Halt);
    }
    let ret = m.pc as u32;
    push(&mut m.sp, &mut m.ram, ret);
    let off = x_off26(w);
    let target: i64 = m.pc as i64 - 4 + off as i64 * 4;
    if 0 <= target && target < RAM_SIZE as i64 {
        m.pc = target as usize;
        io_quiet(StepResult::Continue)
    } else {
        let mut err: Vec<u8> = Vec::new();
        emit_call_fault(&mut err);
        emit_hex_marked(&mut err, encode_signed(target));
        emit_nl(&mut err);
        StepIo { result: StepResult::Halt, out: Vec::new(), err }
    }
}

/// Return family handler.
fn do_return(m: &mut Machine, w: u32) -> (io: StepIo)
    requires
        old(m).wf(),
    ensures
        matches_next(
            *final(m),
            io.result,
            io.out@,
            io.err@,
            step_return(old(m).ram@, old(m).pc as int, old(m).sp as int, w),
        ),
{
    let raw = x_imm28(w);
    let ns = m.sp + raw as usize;
    m.sp = if ns > RAM_SIZE - 4 {
        RAM_SIZE - 4
    } else {
        ns
    };
    let ret = pop(&mut m.sp, m.ram.as_slice());
    if ret > RAM_SIZE as u32 {
        io_quiet(StepResult::Halt)
    } else {
        m.pc = ret as usize;
        io_quiet(StepResult::Continue)
    }
}

/// Goto family handler.
fn do_goto(m: &mut Machine, w: u32) -> (io: StepIo)
    requires
        old(m).wf(),
        4 <= old(m).pc,
    ensures
        matches_next(
            *final(m),
            io.result,
            io.out@,
            io.err@,
            step_goto(old(m).ram@, old(m).pc as int, old(m).sp as int, w),
        ),
{
    let off = x_off26(w);
    let target: i64 = m.pc as i64 - 4 + off as i64 * 4;
    if 0 <= target && target < RAM_SIZE as i64 {
        m.pc = target as usize;
        io_quiet(StepResult::Continue)
    } else {
        let mut err: Vec<u8> = Vec::new();
        emit_goto_fault(&mut err);
        emit_hex_marked(&mut err, encode_signed(target));
        emit_nl(&mut err);
        StepIo { result: StepResult::Halt, out: Vec::new(), err }
    }
}

/// Binary conditional jump family handler.
fn do_ifcmp(m: &mut Machine, w: u32) -> (io: StepIo)
    requires
        old(m).wf(),
        4 <= old(m).pc,
    ensures
        matches_next(
            *final(m),
            io.result,
            io.out@,
            io.err@,
            step_ifcmp(old(m).ram@, old(m).pc as int, old(m).sp as int, w),
        ),
{
    if m.sp + 4 > RAM_SIZE {
        return io_quiet(StepResult::Halt);
    }
    let right = read_u32(m.ram.as_slice(), m.sp);
    let left: u32 = if m.sp + 8 <= RAM_SIZE {
        read_u32(m.ram.as_slice(), m.sp + 4)
    } else {
        0
    };
    let c = x_cond3(w);
    let ls = signed_of(left);
    let rs = signed_of(right);
    let take: bool = if c == 0 {
        left == right
    } else if c == 1 {
        left != right
    } else if c == 2 {
        ls < rs
    } else if c == 3 {
        ls > rs
    } else if c == 4 {
        ls <= rs
    } else if c == 5 {
        ls >= rs
    } else {
        false
    };
    if take {
        let off = x_off23(w);
        let target: i64 = m.pc as i64 - 4 + off as i64 * 4;
        if 0 <= target && target < RAM_SIZE as i64 {
            m.pc = target as usize;
            io_quiet(StepResult::Continue)
        } else {
            let mut err: Vec<u8> = Vec::new();
            emit_if_fault(&mut err);
            emit_hex_marked(&mut err, encode_signed(target));
            emit_nl(&mut err);
            StepIo { result: StepResult::Halt, out: Vec::new(), err }
        }
    } else {
        io_quiet(StepResult::Continue)
    }
}

/// Unary conditional jump family handler.
fn do_iftst(m: &mut Machine, w: u32) -> (io: StepIo)
    requires
        old(m).wf(),
        4 <= old(m).pc,
    ensures
        matches_next(
            *final(m),
            io.result,
            io.out@,
            io.err@,
            step_iftst(old(m).ram@, old(m).pc as int, old(m).sp as int, w),
        ),
{
    if m.sp + 4 > RAM_SIZE {
        return io_quiet(StepResult::Halt);
    }
    let v = read_u32(m.ram.as_slice(), m.sp);
    let c = x_cond2(w);
    let vs = signed_of(v);
    let take: bool = if c == 0 {
        v == 0
    } else if c == 1 {
        v != 0
    } else if c == 2 {
        vs < 0
    } else {
        vs >= 0
    };
    if take {
        let off = x_off24(w);
        let target: i64 = m.pc as i64 - 4 + off as i64 * 4;
        if 0 <= target && target < RAM_SIZE as i64 {
            m.pc = target as usize;
            io_quiet(StepResult::Continue)
        } else {
            let mut err: Vec<u8> = Vec::new();
            emit_jump_fault(&mut err);
            emit_hex_marked(&mut err, encode_signed(target));
            emit_nl(&mut err);
            StepIo { result: StepResult::Halt, out: Vec::new(), err }
        }
    } else {
        io_quiet(StepResult::Continue)
    }
}

/// Duplicate family handler.
fn do_dup(m: &mut Machine, w: u32) -> (io: StepIo)
    requires
        old(m).wf(),
    ensures
        matches_next(
            *final(m),
            io.result,
            io.out@,
            io.err@,
            step_dup(old(m).ram@, old(m).pc as int, old(m).sp as int, w),
        ),
{
    let off = x_off26(w);
    let addr: i64 = m.sp as i64 + off as i64 * 4;
    if addr < 0 || addr + 4 > RAM_SIZE as i64 || m.sp < 4 {
        return io_quiet(StepResult::Halt);
    }
    let v = read_u32(m.ram.as_slice(), addr as usize);
    push(&mut m.sp, &mut m.ram, v);
    io_quiet(StepResult::Continue)
}

/// Formatted print family handler.
fn do_print(m: &Machine, w: u32) -> (io: StepIo)
    requires
        m.wf(),
    ensures
        matches_next(
            *m,
            io.result,
            io.out@,
            io.err@,
            step_print(m.ram@, m.pc as int, m.sp as int, w),
        ),
{
    let off = x_off26(w);
    let addr: i64 = m.sp as i64 + off as i64 * 4;
    if addr < 0 || addr + 4 > RAM_SIZE as i64 {
        return io_quiet(StepResult::Halt);
    }
    let v = read_u32(m.ram.as_slice(), addr as usize);
    proof {
        assert(w & 0x3 < 4) by (bit_vector);
    }
    let f = w & 0x3;
    let mut out: Vec<u8> = Vec::new();
    if f == 0 {
        emit_dec_signed(&mut out, v);
    } else if f == 1 {
        emit_hex_marked(&mut out, v);
    } else if f == 2 {
        emit_bin_marked(&mut out, v);
    } else {
        emit_oct_marked(&mut out, v);
    }
    emit_nl(&mut out);
    StepIo { result: StepResult::Continue, out, err: Vec::new() }
}

/// Stack dump family handler.
fn do_dump(m: &Machine) -> (io: StepIo)
    requires
        m.wf(),
    ensures
        matches_next(
            *m,
            io.result,
            io.out@,
            io.err@,
            step_dump(m.ram@, m.pc as int, m.sp as int),
        ),
{
    let mut out: Vec<u8> = Vec::new();
    let mut addr: usize = m.sp;
    while addr + 4 <= RAM_SIZE
        invariant
            m.wf(),
            m.sp <= addr <= RAM_SIZE + 4,
            dump_from(m.ram@, m.sp as int, m.sp as int) == out@ + dump_from(
                m.ram@,
                m.sp as int,
                addr as int,
            ),
        decreases RAM_SIZE - addr,
    {
        let rel = addr - m.sp;
        let v = read_u32(m.ram.as_slice(), addr);
        emit_radix_padded(&mut out, rel as u32, 16, false, 4);
        emit_dump_sep(&mut out);
        emit_radix_padded(&mut out, v, 16, false, 8);
        emit_nl(&mut out);
        addr = addr + 4;
    }
    proof {
        assert(dump_from(m.ram@, m.sp as int, addr as int) =~= Seq::<u8>::empty());
        assert(out@ =~= out@ + Seq::<u8>::empty());
    }
    StepIo { result: StepResult::Continue, out, err: Vec::new() }
}

/// Push-immediate family handler.
fn do_pushi(m: &mut Machine, w: u32) -> (io: StepIo)
    requires
        old(m).wf(),
    ensures
        matches_next(
            *final(m),
            io.result,
            io.out@,
            io.err@,
            step_pushi(old(m).ram@, old(m).pc as int, old(m).sp as int, w),
        ),
{
    if m.sp < 4 {
        return io_quiet(StepResult::Halt);
    }
    let v = x_imm28(w);
    push(&mut m.sp, &mut m.ram, v);
    io_quiet(StepResult::Continue)
}

/// One fetch-decode-execute cycle.
///
/// From any well-formed machine this performs exactly the transition
/// `spec_step` describes, returns the signal and stream bytes of that
/// transition, and leaves the machine well-formed: the program counter
/// and stack pointer stay within `[0, RAM_SIZE]`.
pub fn execute_instruction(m: &mut Machine) -> (io: StepIo)
    requires
        old(m).wf(),
    ensures
        final(m).wf(),
        matches_next(
            *final(m),
            io.result,
            io.out@,
            io.err@,
            spec_step(old(m).ram@, old(m).pc as int, old(m).sp as int),
        ),
{
    proof {
        crate::sem::lemma_step_wf(old(m).ram@, old(m).pc as int, old(m).sp as int);
    }
    if m.pc + 4 > RAM_SIZE {
        return io_quiet(StepResult::Halt);
    }
    let w = read_u32(m.ram.as_slice(), m.pc);
    m.pc = m.pc + 4;
    let op = x_opcode(w);
    if op == 0x0 {
        do_misc(m, w)
    } else if op == 0x1 {
        do_pop(m, w)
    } else if op == 0x2 {
        do_binary(m, w)
    } else if op == 0x3 {
        do_unary(m, w)
    } else if op == 0x4 {
        do_sprint(m, w)
    } else if op == 0x5 {
        do_call(m, w)
    } else if op == 0x6 {
        do_return(m, w)
    } else if op == 0x7 {
        do_goto(m, w)
    } else if op == 0x8 {
        do_ifcmp(m, w)
    } else if op == 0x9 {
        do_iftst(m, w)
    } else if op == 0xB {
        do_dup(m, w)
    } else if op == 0xD {
        let io = do_print(&*m, w);
        io
    } else if op == 0xE {
        let io = do_dump(&*m);
        io
    } else if op == 0xF {
        do_pushi(m, w)
    } else {
        io_quiet(StepResult::Continue)
    }
}

} // verus!
