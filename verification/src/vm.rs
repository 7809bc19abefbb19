//! The execution engine: values, operand stack, memory and the machine.

pub mod value;
pub mod number;
pub mod state;
pub mod stack;
pub mod memory;
pub mod vm;

pub use value::Value;
pub use vm::{StateChange, VirtualMachine};
