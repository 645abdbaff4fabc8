//! An interpreter for the CHIP-8 virtual machine: memory, timers, the
//! instruction decoder, the execution engine and a disassembler, each
//! stated and proved against a mathematical model of the machine.

pub mod chip8;
pub mod constant;
pub mod cpu;
pub mod display;
pub mod instruction;
pub mod ram;
pub mod text;
pub mod timer;
