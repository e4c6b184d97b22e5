//! Program loading: validate the magic marker and materialize memory.
//!
//! A program file is the four magic bytes `DE AD BE EF` followed by the
//! program body.  Loading zero-fills memory, copies the body to offset
//! zero, and starts the machine with the program counter at zero and the
//! stack pointer at the top of memory (empty stack).

use vstd::prelude::*;
use crate::RAM_SIZE;
use crate::machine::Machine;

verus! {

/// Why a program image was rejected.
#[derive(Clone, Copy, PartialEq, Eq, Structural, Debug)]
pub enum LoadError {
    /// The file does not begin with the magic marker.
    InvalidFormat,
    /// The body after the marker does not fit in memory.
    ProgramTooLarge,
}

/// Whether the image begins with the magic marker `DE AD BE EF`.
pub open spec fn magic_ok(bytes: Seq<u8>) -> bool {
    bytes.len() >= 4 && bytes[0] == 0xDE && bytes[1] == 0xAD && bytes[2] == 0xBE && bytes[3] == 0xEF
}

/// The memory image a valid program file produces: the body at offset
/// zero, zeros beyond it.
pub open spec fn loaded_ram(bytes: Seq<u8>) -> Seq<u8>
    recommends
        magic_ok(bytes),
{
    Seq::new(
        RAM_SIZE as nat,
        |i: int|
            if i < bytes.len() - 4 {
                bytes[i + 4]
            } else {
                0u8
            },
    )
}

/// The loader's whole outcome on an image: the error it reports, or the
/// initial memory, program counter and stack pointer of the machine it
/// builds.
pub open spec fn load_outcome(bytes: Seq<u8>) -> Result<(Seq<u8>, int, int), LoadError> {
    if !magic_ok(bytes) {
        Err(LoadError::InvalidFormat)
    } else if bytes.len() - 4 > RAM_SIZE {
        Err(LoadError::ProgramTooLarge)
    } else {
        Ok((loaded_ram(bytes), 0, RAM_SIZE as int))
    }
}

/// Load a program image.
///
/// The result is exactly `load_outcome`: `InvalidFormat` when the first
/// four bytes are not the magic marker (a shorter file has no marker),
/// `ProgramTooLarge` when the marker is right but the body exceeds
/// memory, and otherwise a well-formed machine holding the body at
/// offset zero with zeros beyond, the program counter at zero and an
/// empty stack.  On failure no machine exists, so nothing can be
/// executed.
pub fn load_program(bytes: &[u8]) -> (r: Result<Machine, LoadError>)
    ensures
        ({
            let o = load_outcome(bytes@);
            match r {
                Ok(m) => {
                    &&& o matches Ok(t) && m.ram@ == t.0 && m.pc == t.1 && m.sp == t.2
                    &&& m.wf()
                },
                Err(e) => o == Err::<(Seq<u8>, int, int), LoadError>(e),
            }
        }),
{
    if bytes.len() < 4 || bytes[0] != 0xDE || bytes[1] != 0xAD || bytes[2] != 0xBE || bytes[3]
        != 0xEF {
        return Err(LoadError::InvalidFormat);
    }
    let body_len = bytes.len() - 4;
    if body_len > RAM_SIZE {
        return Err(LoadError::ProgramTooLarge);
    }
    let mut ram: Vec<u8> = Vec::new();
    let mut i: usize = 0;
    while i < body_len
        invariant
            i <= body_len,
            body_len == bytes@.len() - 4,
            body_len <= RAM_SIZE,
            ram@.len() == i,
            forall|j: int| 0 <= j < i ==> ram@[j] == bytes@[j + 4],
        decreases body_len - i,
    {
        ram.push(bytes[4 + i]);
        i = i + 1;
    }
    while ram.len() < RAM_SIZE
        invariant
            body_len == bytes@.len() - 4,
            body_len <= ram@.len() <= RAM_SIZE,
            forall|j: int| 0 <= j < body_len ==> ram@[j] == bytes@[j + 4],
            forall|j: int| body_len <= j < ram@.len() ==> ram@[j] == 0u8,
        decreases RAM_SIZE - ram@.len(),
    {
        ram.push(0u8);
    }
    proof {
        assert(ram@ =~= loaded_ram(bytes@));
    }
    Ok(Machine { ram, pc: 0, sp: RAM_SIZE })
}

} // verus!
