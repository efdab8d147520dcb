//! A CHIP-8 virtual machine: register file, memory, call stack, display,
//! keypad, the instruction set and the driver that steps it.

pub mod registers;
pub mod cpu;
pub mod emu;
pub mod instructions;
pub mod driver;
pub mod laws;
