//! An interpreter core for the CHIP-8 family of virtual machines
//! (CHIP-8, SCHIP 1.0/1.1 and XO-CHIP), with every instruction's effect
//! stated as a contract over a mathematical model of the machine.
//!
//! A session is a [`Chip8`]: its caller loads the font and a program, calls
//! [`Chip8::run`] some number of times per frame, [`Chip8::decrement_timers`]
//! once per frame, and reads the display and sound timer back.

pub mod keypad;
pub mod instruction;
pub mod font;
pub mod machine;
pub mod chip8;
pub mod laws;

pub use chip8::Chip8;
pub use machine::Variant;
pub use instruction::Instruction;
