//! An interpreter for a small 8-bit instruction set: 4 KiB of memory, sixteen
//! byte registers, a 64x32 monochrome framebuffer, a call stack, two countdown
//! timers and a 16-key input matrix.
pub mod chip8;
pub mod cpu;
pub mod instruction;
pub mod keypad;
pub mod nibbles;
pub mod properties;
pub mod semantics;
