//! Core of an emulator for a small 8-bit virtual machine: a decoder from
//! 16-bit instruction words to operations, and an execution engine that
//! applies one operation per cycle to the machine state, with contracts
//! that state each operation's effect exactly.

pub mod chip8;
pub mod laws;
pub mod opcode;
pub mod sprite;
pub mod util;
