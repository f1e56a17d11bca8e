//! A verified CHIP-8 virtual machine: a 35-instruction ISA over a 4096-byte
//! address space, 16 general registers, a bounded call stack, two countdown
//! timers, a 16-key input latch, and a bit-packed 64x32 monochrome
//! framebuffer embedded in memory.
//!
//! The decoder ([`opcode`]), the per-instruction transition semantics
//! ([`semantics`]), the sprite-blit algorithm ([`blit`]) and the execution
//! engine itself ([`interpreter`]) are specified and proved here; a host is
//! expected to drive the engine one step at a time, render the framebuffer,
//! and deliver key events.

pub mod blit;
pub mod constants;
pub mod disassembler;
pub mod interpreter;
pub mod laws;
pub mod opcode;
pub mod semantics;
pub mod types;
pub mod util;

pub use constants::DISPLAY_MEM_START;
pub use constants::FONT_START;
pub use constants::PC_DEFAULT_START;
