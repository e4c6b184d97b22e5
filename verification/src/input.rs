//! Applying a line of input to the machine.
//!
//! When the engine returns `Input` or `StrInput`, the driver reads one
//! line and hands its bytes back through these functions, which perform
//! the verified part: parsing and pushing.

use vstd::prelude::*;
use crate::machine::{Machine, StepResult};
use crate::words::store_word;
use crate::mem::push;
use crate::parse::{trim_spec, input_value, parse_input_line, trim_bytes};

verus! {

/// The stack word packed for one chunk of text: the chunk's bytes in the
/// low three byte slots (missing slots filled with the sentinel 0x01),
/// and a more-data-follows flag in the top byte for every word but the
/// first one pushed.
pub open spec fn pack_word(bytes: Seq<u8>, start: int, end: int, first: bool) -> u32
    recommends
        0 <= start < end <= bytes.len(),
        end - start <= 3,
{
    let flag: int = if first {
        0
    } else {
        0x100_0000
    };
    let c2: int = if end - start > 2 {
        bytes[start + 2] * 0x1_0000
    } else {
        0x1_0000
    };
    let c1: int = if end - start > 1 {
        bytes[start + 1] * 0x100
    } else {
        0x100
    };
    (flag + c2 + c1 + bytes[start]) as u32
}

/// The words pushed for the text's first `index` bytes, in push order:
/// the text is walked backward three bytes at a time, so the first word
/// pushed holds the last characters.
pub open spec fn pack_from(bytes: Seq<u8>, index: int, first: bool) -> Seq<u32>
    decreases index,
{
    if index <= 0 {
        Seq::<u32>::empty()
    } else {
        let start: int = if index >= 3 {
            index - 3
        } else {
            0
        };
        seq![pack_word(bytes, start, index, first)] + pack_from(bytes, start, false)
    }
}

/// The state after pushing the words in order; the flag is false when a
/// push found the stack full, leaving the earlier pushes in place.
pub open spec fn push_all(ram: Seq<u8>, sp: int, ws: Seq<u32>) -> (Seq<u8>, int, bool)
    decreases ws.len(),
{
    if ws.len() == 0 {
        (ram, sp, true)
    } else if sp < 4 {
        (ram, sp, false)
    } else {
        push_all(store_word(ram, sp - 4, ws[0]), sp - 4, ws.skip(1))
    }
}

/// The text kept from an input line: trimmed, then cut to `max` bytes.
pub open spec fn limited_of(line: Seq<u8>, max: int) -> Seq<u8> {
    let t = trim_spec(line);
    if t.len() > max {
        t.take(max)
    } else {
        t
    }
}

/// Answer an `Input` request: parse the line and push its value.
/// Pushing onto a full stack halts and changes nothing.
pub fn apply_input(m: &mut Machine, line: &[u8]) -> (r: StepResult)
    requires
        old(m).wf(),
    ensures
        final(m).wf(),
        old(m).sp < 4 ==> {
            &&& final(m).ram@ == old(m).ram@
            &&& final(m).pc == old(m).pc
            &&& final(m).sp == old(m).sp
            &&& r == StepResult::Halt
        },
        old(m).sp >= 4 ==> {
            &&& final(m).ram@ == store_word(old(m).ram@, old(m).sp - 4, input_value(line@))
            &&& final(m).pc == old(m).pc
            &&& final(m).sp == old(m).sp - 4
            &&& r == StepResult::Continue
        },
{
    if m.sp < 4 {
        return StepResult::Halt;
    }
    let v = parse_input_line(line);
    push(&mut m.sp, &mut m.ram, v);
    StepResult::Continue
}

/// Answer a `StrInput` request: trim the line, keep at most `max`
/// bytes, and push the text packed three bytes per word, walking it
/// backward.  A push onto a full stack halts, earlier pushes kept.
pub fn apply_str_input(m: &mut Machine, line: &[u8], max: u32) -> (r: StepResult)
    requires
        old(m).wf(),
    ensures
        final(m).wf(),
        ({
            let lim = limited_of(line@, max as int);
            let outcome = push_all(
                old(m).ram@,
                old(m).sp as int,
                pack_from(lim, lim.len() as int, true),
            );
            &&& final(m).ram@ == outcome.0
            &&& final(m).sp == outcome.1
            &&& final(m).pc == old(m).pc
            &&& r == (if outcome.2 {
                StepResult::Continue
            } else {
                StepResult::Halt
            })
        }),
{
    let mut t = trim_bytes(line);
    if t.len() > max as usize {
        t.truncate(max as usize);
        proof {
            assert(t@ =~= limited_of(line@, max as int));
        }
    }
    proof {
        assert(t@ =~= limited_of(line@, max as int));
    }
    let ghost lim = t@;
    let ghost full = pack_from(lim, lim.len() as int, true);
    let mut ws: Vec<u32> = Vec::new();
    let mut index: usize = t.len();
    while index > 0
        invariant
            index <= t@.len(),
            t@ == lim,
            full == ws@ + pack_from(lim, index as int, ws@.len() == 0),
        decreases index,
    {
        let start: usize = if index >= 3 {
            index - 3
        } else {
            0
        };
        let first = ws.len() == 0;
        let flag: u32 = if first {
            0
        } else {
            0x100_0000
        };
        let c2: u32 = if index - start > 2 {
            t[start + 2] as u32 * 0x1_0000
        } else {
            0x1_0000
        };
        let c1: u32 = if index - start > 1 {
            t[start + 1] as u32 * 0x100
        } else {
            0x100
        };
        let wv: u32 = flag + c2 + c1 + t[start] as u32;
        let ghost pre = ws@;
        ws.push(wv);
        proof {
            assert(wv == pack_word(lim, start as int, index as int, first));
            assert(pack_from(lim, index as int, first) == seq![wv] + pack_from(
                lim,
                start as int,
                false,
            ));
            assert(pre + pack_from(lim, index as int, first) =~= ws@ + pack_from(
                lim,
                start as int,
                false,
            ));
        }
        index = start;
    }
    proof {
        assert(pack_from(lim, 0, ws@.len() == 0) =~= Seq::<u32>::empty());
        assert(ws@ =~= ws@ + Seq::<u32>::empty());
        assert(ws@ == full);
    }
    let ghost ws_full = ws@;
    proof {
        assert(ws_full.skip(0) =~= ws_full);
    }
    let mut i: usize = 0;
    while i < ws.len()
        invariant
            i <= ws@.len(),
            ws@ == ws_full,
            ws_full == pack_from(
                limited_of(line@, max as int),
                limited_of(line@, max as int).len() as int,
                true,
            ),
            m.wf(),
            m.pc == old(m).pc,
            push_all(old(m).ram@, old(m).sp as int, ws_full) == push_all(
                m.ram@,
                m.sp as int,
                ws_full.skip(i as int),
            ),
        decreases ws@.len() - i,
    {
        if m.sp < 4 {
            proof {
                assert(ws_full.skip(i as int).len() > 0);
                assert(push_all(m.ram@, m.sp as int, ws_full.skip(i as int)) == (
                    m.ram@,
                    m.sp as int,
                    false,
                ));
            }
            return StepResult::Halt;
        }
        let wv = ws[i];
        proof {
            assert(ws_full.skip(i as int)[0] == ws_full[i as int]);
            assert(ws_full.skip(i as int).skip(1) =~= ws_full.skip(i + 1));
        }
        push(&mut m.sp, &mut m.ram, wv);
        i = i + 1;
    }
    proof {
        assert(ws_full.skip(ws_full.len() as int) =~= Seq::<u32>::empty());
    }
    StepResult::Continue
}

} // verus!
