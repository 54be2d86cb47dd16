//! A stack-based bytecode virtual machine over 1024 thirty-two-bit words.
//!
//! The machine loads a flat program image behind a magic header, then runs a
//! fetch-decode-execute loop. Every instruction is decoded from one 32-bit
//! word by a 4-bit primary opcode with per-opcode sub-fields, and executed
//! against a single memory array shared by code and stack. The stack grows
//! toward lower indices; `SP == 1024` means an empty stack.
//!
//! The host drives the loop through [`machine::Machine::step_event`]: each
//! step either keeps running, halts with an exit code, hands the host bytes
//! to write, or asks the host for one input line, which comes back through
//! [`machine::Machine::provide_line`].

use vstd::prelude::*;

pub mod decode;
pub mod exec;
pub mod laws;
pub mod machine;
pub mod numfmt;
pub mod numparse;
pub mod strings;
pub mod words;

verus! {

/// Number of 32-bit words in the machine's memory.
pub const MEM_WORDS: usize = 1024;

/// The little-endian reading of the four header bytes `DE AD BE EF`.
pub const MAGIC_WORD: u32 = 0xefbe_adde;

/// The ways a load or an execution step can fail. Every failure aborts the
/// current step; the machine has no recovery mechanism.
#[derive(Clone, Copy, Debug, PartialEq, Eq, Structural)]
pub enum VmError {
    /// The program image does not start with the magic header.
    BadMagic,
    /// The image body is not whole words, or holds more words than memory.
    Truncated,
    /// A push was attempted with the stack full (`SP <= 0`).
    StackOverflow,
    /// A stack or memory access fell outside the 1024 memory words.
    OutOfBounds,
    /// A reserved opcode, an unknown sub-field, or a fetch outside memory.
    DecoderError,
    /// The input line was not a valid integer in the detected base.
    ParseError,
}

} // verus!
