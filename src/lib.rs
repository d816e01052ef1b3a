//! An interpreter for a tape-based esoteric instruction language: a
//! Brainfuck derivative extended with bitwise and arithmetic opcodes,
//! labelled jumps and a call stack kept in the machine's own memory.

pub mod brackets;
pub mod labels;
pub mod laws;
pub mod machine;
pub mod memory;
pub mod opcode;
pub mod stack;
