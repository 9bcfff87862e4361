pub mod blob;
pub mod decoding;
pub mod peephole;
pub mod instruction;
pub mod opcode;
pub mod semantics;

pub use blob::ProgramBlob;
pub use instruction::Instruction;
pub use opcode::Opcode;
