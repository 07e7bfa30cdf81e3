//! A CHIP-8 virtual machine: instruction interpreter, memory, monochrome
//! framebuffer, single-key keyboard state and lazily decaying timers.

pub mod cpu;
pub mod display;
pub mod keyboard;
pub mod machine;
pub mod ram;
pub mod timer;
