//! The instruction set and its byte encoding.

pub mod opcode;
pub mod instruction;

pub use opcode::OpCode;
pub use instruction::Instruction;
