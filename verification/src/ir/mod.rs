//! The intermediate representation between WebAssembly operators and code
//! generation, and the optimizations that run on it.
pub mod builder;
pub mod instruction;
pub mod optimizer;

pub use builder::build_ir;
pub use instruction::IrInstruction;
pub use optimizer::optimize;
