//! A small stack-based bytecode virtual machine.
//!
//! A program is a sequence of 32-bit little-endian instruction words loaded
//! at the bottom of a fixed 4096-byte memory.  A single stack grows downward
//! from the top of that memory and carries both data and return addresses.
//! The engine is a pure step function: it fetches one word, decodes the top
//! nibble into an operation family, and advances the machine state.  All
//! input and output is returned to the caller as data, so the engine itself
//! performs no I/O and is verified not to panic.

pub mod words;
pub mod mem;
pub mod decode;
pub mod arith;
pub mod render;
pub mod machine;
pub mod sem;
pub mod step;
pub mod loader;
pub mod parse;
pub mod input;
pub mod laws;

use vstd::prelude::*;

verus! {

/// Capacity of the machine's memory in bytes.
pub const RAM_SIZE: usize = 4096;

} // verus!
