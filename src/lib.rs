//! A CHIP-8 virtual machine: registers, memory, call stack, timers, keypad
//! and a monochrome display, driven one fetch-decode-execute cycle at a time.

pub mod chip8;
pub mod screen;
pub mod spec;
pub mod theorems;

pub use chip8::Chip8;
pub use screen::{Screen, SCREEN_HEIGHT, SCREEN_WIDTH};
pub use spec::{Chip8Error, FONTSET, FONTSET_START_ADDRESS, MAX_ROM_SIZE, START_ADDRESS};
