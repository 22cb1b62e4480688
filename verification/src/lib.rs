//! A CHIP-8 virtual machine: memory, register file, instruction decoder,
//! executor and the interpreter loop that ties them together.
//!
//! Every function carries a contract over a mathematical model of the
//! machine (sequences of bytes, a register-file view) and is proved against
//! it.
use vstd::prelude::*;

pub mod cartridge;
pub mod chip8;
pub mod clock;
pub mod computer;
pub mod decoder;
pub mod display;
pub mod event;
pub mod fault;
pub mod keyboard;
pub mod memory;
pub mod registers;
pub mod semantics;

verus! {

} // verus!
