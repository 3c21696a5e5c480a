//! An interpreter for the CHIP-8 virtual machine.
//!
//! The library holds the machine's memory, its decoder and its executor,
//! each specified over a mathematical model of the machine state.
pub mod chip8;
pub mod error;
pub mod instruction;
pub mod lemmas;
pub mod memory;
pub mod state;

pub use chip8::Chip8;
pub use error::Chip8Error;
pub use instruction::{extract_instruction_data, Op};
pub use memory::Memory;
