//! The failure taxonomy of the virtual machine core.

use vstd::prelude::*;

verus! {

/// Every way a memory access, register access, or instruction cycle can fail.
/// All failures are returned, never panicked on.
#[derive(Clone, Copy, Debug, PartialEq, Eq, Structural)]
pub enum InterpreterError {
    /// No table entry matches the opcode fetched at this address.
    InvalidInstructionError(usize, u16),
    /// A memory access lies outside the 4096-byte address space.
    InvalidAddressError(usize),
    /// A general-purpose register index above 15.
    InvalidRegister(usize),
    /// A frame-buffer index at or above 2048.
    InvalidFrameBufferIndex(u16),
    /// A key or font-glyph index above 15.
    InvalidKey(usize),
    /// A call would push a seventeenth return address.
    StackOverflow,
    /// A return was executed with an empty call stack.
    StackUnderflow,
}

} // verus!
