//! The engine's halting conditions and the trait a textual renderer of
//! opcodes implements.

use vstd::prelude::*;
use crate::opcode::OpCode;

verus! {

/// A halting condition. None of these is recovered from: the engine reports
/// it to the host and should not be stepped further.
#[derive(Clone, Copy, Debug, PartialEq, Eq, Structural)]
pub enum Chip8Error {
    /// A decoded instruction's secondary selector has no defined meaning.
    InvalidOpcode,
    /// A call would exceed the maximum supported call depth.
    StackOverflow,
    /// A return was attempted with no active call frame.
    StackUnderflow,
    /// A memory access would read or write outside the 4096-byte address
    /// space.
    AddressOutOfRange,
}

/// Something that turns one opcode into a line of text.
pub trait HandleOp {
    /// Render one opcode as text.
    fn handle_op(&self, op_code: &OpCode) -> String;
}

} // verus!
