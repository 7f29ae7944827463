//! A CHIP-8 interpreter core: memory, registers, call stack, a monochrome
//! framebuffer with XOR sprite compositing, a 16-key pad and a 60 Hz delay
//! timer, each operation stated and proved against a mathematical model.

pub mod screen;
pub mod keypad;
pub mod machine;
pub mod emulator;
pub mod laws;
