//! A CHIP-8 virtual machine: opcode decoding, the execution engine, and the
//! register, memory, timer and sprite semantics of the baseline instruction
//! set, each stated as a contract and proved.
//!
//! Terminal rendering and keyboard capture are left to the embedding program,
//! which supplies them through the [`input::EmulatorInput`] and
//! [`output::EmulatorOutput`] capabilities.

pub mod bit_splitter;
pub mod instruction;
pub mod machine;
pub mod input;
pub mod output;
pub mod emulator;
pub mod laws;
