//! A verified CHIP-8 interpreter core.
//!
//! The crate models the classic 35-instruction CHIP-8 virtual machine:
//! a 4096-byte memory, sixteen 8-bit registers, a 16-entry call stack,
//! two countdown timers, a 16-key keypad and a 64x32 monochrome display.
//! The instruction semantics are written down as specification functions
//! over a mathematical view of the machine state, and the executable
//! fetch/execute engine is proved to implement them exactly.

pub mod instruction;
pub mod semantics;
pub mod machine;
pub mod laws;
