//! A deterministic interpreter for the classic 35-opcode CHIP-8 instruction
//! set: memory, registers, call stack, a 64x32 monochrome display and a seeded
//! random source, stepped one instruction at a time by the host.
pub mod error;
pub mod instruction;
pub mod laws;
pub mod machine;
pub mod rng;
pub mod state;

pub use error::ChipError;
pub use instruction::{decode, Instruction};
pub use machine::ChipEight;
pub use state::{Status, StepRecord, DISPLAY_HEIGHT, DISPLAY_WIDTH};
