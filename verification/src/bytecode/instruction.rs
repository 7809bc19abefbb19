//! One instruction with its operand, as a value.

use vstd::prelude::*;
use super::opcode::OpCode;

verus! {

/// An opcode together with one 16-bit operand.
#[derive(Debug, Clone, Copy)]
pub struct Instruction {
    pub opcode: OpCode,
    pub operand: u16,
}

impl Instruction {
    /// An instruction whose operand is zero.
    pub fn new(opcode: OpCode) -> (ins: Instruction)
        ensures
            ins.opcode == opcode,
            ins.operand == 0,
    {
        Instruction { opcode, operand: 0 }
    }

    /// An instruction with the given operand.
    pub fn with_operand(opcode: OpCode, operand: u16) -> (ins: Instruction)
        ensures
            ins.opcode == opcode,
            ins.operand == operand,
    {
        Instruction { opcode, operand }
    }
}

} // verus!
