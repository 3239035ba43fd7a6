//! A small stack-based bytecode machine.
//!
//! A program is a sequence of bytes. Each instruction starts with an opcode
//! byte, possibly followed by operand bytes. The machine holds an operand
//! stack of `i32` values, 256 variable slots and a program counter.
//! `Machine::step` executes one instruction and reports what the host has to
//! do (print something, stop, or report an error).
pub mod opcode;
pub mod machine;
pub mod laws;
pub mod instruction_laws;
