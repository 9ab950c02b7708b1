//! A CHIP-8 virtual machine: memory, registers, call stack, timers, a
//! monochrome display and a hexadecimal keypad, driven one instruction at a
//! time. Every executable function carries a contract over the mathematical
//! model in [`machine::Machine`], and Verus proves the code against it.

pub mod cpu;
pub mod error;
pub mod instruction;
pub mod laws;
pub mod machine;
mod random;
pub mod render;

pub use cpu::Cpu;
pub use error::Chip8Error;
pub use instruction::{decode, Instruction};
