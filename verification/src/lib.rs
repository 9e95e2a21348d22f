//! Verified core of a CHIP-8 virtual machine.
//!
//! The crate models a small fixed-width instruction set: a flat 4096-byte
//! memory, a register file with a bounded call stack, a 64x32 monochrome
//! frame buffer, and an ordered opcode table that decodes and executes
//! 16-bit instructions.  Every public operation carries a contract relating
//! the machine state after the call to the state before it.

pub mod error;
pub mod instructions;
pub mod interpreter;
pub mod frame_buffer;
pub mod memory;
pub mod random;
pub mod registers;
