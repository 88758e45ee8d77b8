//! A small accumulator machine in the style of an office-worker puzzle game:
//! one buffer, a register file, an inbox queue and an outbox sequence.
pub mod laws;
pub mod machine;
pub mod parser;
pub mod semantics;

pub use machine::{Instruction, Machine, MachineRuntimeError};
pub use parser::InstructionParser;
