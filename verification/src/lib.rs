//! A verified CHIP-8 interpreter core.
//!
//! The crate models the classic CHIP-8 virtual machine: a 4096-byte memory
//! seeded with a hexadecimal glyph font, sixteen 8-bit registers, a 16-level
//! call stack, two countdown timers, and a 64x32 monochrome framebuffer.
//! Every state transition of the core (fetch, decode, execute, timer tick)
//! is specified by spec-level functions over a mathematical view of the
//! machine and proved against them.
//!
//! Host concerns (reading a program image from disk, presenting the
//! framebuffer, polling a keyboard, playing sound) stay outside: the core
//! receives the key state and a random byte as plain values each cycle and
//! reports faults as typed results.

pub mod cycle;
pub mod draw;
pub mod font;
pub mod instr;
pub mod laws;
pub mod state;

pub use instr::Fault;
pub use instr::Instr;
pub use state::Chip8;
