//! A verified interpreter core for an 8-bit virtual machine architecture:
//! a 35-opcode instruction set over 16 general-purpose 8-bit registers, a
//! 16-bit address register, a 16-level call stack, two countdown timers and
//! a 64x32 monochrome bitmap display.
//!
//! The crate holds the instruction decoder, the execution engine and the two
//! storage components it touches (the framebuffer and the key latch).  Every
//! instruction's arithmetic is specified bit-exactly; faults (stack overflow
//! or underflow, out-of-range glyph index, out-of-bounds memory access) are
//! surfaced as values instead of panics.

pub mod instructions;
pub mod keyboard;
pub mod machine;
pub mod screen;
