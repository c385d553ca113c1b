//! A CHIP-8 virtual machine: a small register machine with 4096 bytes of
//! memory, sixteen 8-bit registers, a call stack, two timers, a sixteen-key
//! keypad and a 64x32 monochrome framebuffer, driven one instruction at a
//! time by a fetch-decode-execute cycle over two-byte big-endian opcodes.
//!
//! The instruction semantics are stated by a specification-level transition
//! function over a mathematical view of the machine state, and the executable
//! engine is proved to follow it exactly.

pub mod cpu;
pub mod decoder;
pub mod disassembler;
pub mod emulate_cycle_error;
pub mod laws;
mod rng;
