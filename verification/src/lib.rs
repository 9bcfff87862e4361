//! Compiler pieces that turn WebAssembly into PolkaVM (PVM) programs:
//! the PVM instruction encoder, program blob and SPI container formats,
//! the peephole optimizer, and the memory layout of compiled programs.

pub mod abi;
pub mod error;
pub mod import_map;
pub mod ir;
pub mod llvm_backend;
pub mod memory_layout;
pub mod pvm;
pub mod report;
pub mod spi;
pub mod test_harness;
pub mod text;
mod wat_parse;

pub use error::{Error, Result};
pub use pvm::{Instruction, Opcode, ProgramBlob};
pub use spi::SpiProgram;
