//! A CHIP-8 virtual machine: memory, display, keypad and CPU, with their
//! behaviour stated as contracts over mathematical models.

pub mod emulator;
pub mod keyboard;
