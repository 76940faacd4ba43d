//! A CHIP-8 virtual machine: memory, registers, a 64x32 one-bit display,
//! two countdown timers, a 16-key pad, and the engine that fetches, decodes
//! and executes 16-bit big-endian instructions on them.

pub mod bits;
pub mod emulator;
pub mod framebuffer;
pub mod instruction;
pub mod keypad;
pub mod laws;
pub mod state;
pub mod timers;
