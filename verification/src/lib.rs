//! A CHIP-8 virtual machine: a verified instruction interpreter over
//! byte-addressable memory, sixteen general-purpose registers, a call
//! stack, two countdown timers, a monochrome framebuffer and a
//! sixteen-key input device.

pub mod arith;
pub mod cpu;
pub mod display;
pub mod keypad;
pub mod laws;
