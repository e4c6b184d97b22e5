//! The machine state and the signal a step hands back to its driver.

use vstd::prelude::*;
use crate::RAM_SIZE;

verus! {

/// The whole state of the virtual machine: one fixed-size memory holding
/// both the program (at the bottom) and the stack (growing down from the
/// top), a program counter and a stack pointer, both byte offsets.
pub struct Machine {
    pub ram: Vec<u8>,
    pub pc: usize,
    pub sp: usize,
}

impl Machine {
    /// Well-formedness: the memory has its fixed capacity and both
    /// pointers stay within `[0, RAM_SIZE]`.
    pub open spec fn wf(&self) -> bool {
        &&& self.ram@.len() == RAM_SIZE
        &&& self.pc <= RAM_SIZE
        &&& self.sp <= RAM_SIZE
    }
}

/// What one instruction asked of the driver.
///
/// The engine performs no I/O itself: it reports termination and input
/// requests as data, and the loop around it acts on them.
#[derive(Clone, Copy, PartialEq, Eq, Structural, Debug)]
pub enum StepResult {
    /// Keep stepping.
    Continue,
    /// The engine halted on a fault or ran off the end of memory.
    Halt,
    /// The program requested process exit with this signed status byte.
    Exit(i8),
    /// The program wants one line read and parsed as an integer;
    /// the driver answers by calling `apply_input`.
    Input,
    /// The program wants one line read as text, at most this many bytes
    /// kept; the driver answers by calling `apply_str_input`.
    StrInput(u32),
}

/// One step's outcome: the signal plus the bytes written to the standard
/// output and error streams.
pub struct StepIo {
    pub result: StepResult,
    pub out: Vec<u8>,
    pub err: Vec<u8>,
}

} // verus!
