//! Opcodes and their stable byte values.

use vstd::prelude::*;

verus! {

/// One operation of the machine. The byte of each is fixed for good.
#[derive(Debug, Clone, Copy, PartialEq, Eq, Structural)]
pub enum OpCode {
    Push,
    Pop,
    Dup,
    LoadLocal,
    StoreLocal,
    Add,
    Sub,
    Mul,
    Div,
    Mod,
    Neg,
    Equal,
    NotEqual,
    Less,
    LessEqual,
    Greater,
    GreaterEqual,
    Jump,
    JumpIf,
    Call,
    Return,
    ExternalCall,
    Nop,
    Halt,
}

impl OpCode {
    /// The opcode that a byte stands for, if any.
    pub open spec fn spec_from_u8(byte: u8) -> Option<OpCode> {
        if byte == 0x01 {
            Some(OpCode::Push)
        } else if byte == 0x02 {
            Some(OpCode::Pop)
        } else if byte == 0x03 {
            Some(OpCode::Dup)
        } else if byte == 0x10 {
            Some(OpCode::LoadLocal)
        } else if byte == 0x11 {
            Some(OpCode::StoreLocal)
        } else if byte == 0x20 {
            Some(OpCode::Add)
        } else if byte == 0x21 {
            Some(OpCode::Sub)
        } else if byte == 0x22 {
            Some(OpCode::Mul)
        } else if byte == 0x23 {
            Some(OpCode::Div)
        } else if byte == 0x24 {
            Some(OpCode::Mod)
        } else if byte == 0x25 {
            Some(OpCode::Neg)
        } else if byte == 0x30 {
            Some(OpCode::Equal)
        } else if byte == 0x31 {
            Some(OpCode::NotEqual)
        } else if byte == 0x32 {
            Some(OpCode::Less)
        } else if byte == 0x33 {
            Some(OpCode::LessEqual)
        } else if byte == 0x34 {
            Some(OpCode::Greater)
        } else if byte == 0x35 {
            Some(OpCode::GreaterEqual)
        } else if byte == 0x40 {
            Some(OpCode::Jump)
        } else if byte == 0x41 {
            Some(OpCode::JumpIf)
        } else if byte == 0x42 {
            Some(OpCode::Call)
        } else if byte == 0x43 {
            Some(OpCode::Return)
        } else if byte == 0x50 {
            Some(OpCode::ExternalCall)
        } else if byte == 0xF0 {
            Some(OpCode::Nop)
        } else if byte == 0xFF {
            Some(OpCode::Halt)
        } else {
            None
        }
    }

    /// The byte that encodes an opcode.
    pub open spec fn spec_to_u8(self) -> u8 {
        match self {
            OpCode::Push => 0x01,
            OpCode::Pop => 0x02,
            OpCode::Dup => 0x03,
            OpCode::LoadLocal => 0x10,
            OpCode::StoreLocal => 0x11,
            OpCode::Add => 0x20,
            OpCode::Sub => 0x21,
            OpCode::Mul => 0x22,
            OpCode::Div => 0x23,
            OpCode::Mod => 0x24,
            OpCode::Neg => 0x25,
            OpCode::Equal => 0x30,
            OpCode::NotEqual => 0x31,
            OpCode::Less => 0x32,
            OpCode::LessEqual => 0x33,
            OpCode::Greater => 0x34,
            OpCode::GreaterEqual => 0x35,
            OpCode::Jump => 0x40,
            OpCode::JumpIf => 0x41,
            OpCode::Call => 0x42,
            OpCode::Return => 0x43,
            OpCode::ExternalCall => 0x50,
            OpCode::Nop => 0xF0,
            OpCode::Halt => 0xFF,
        }
    }

    /// Number of immediate bytes that follow the opcode byte.
    pub open spec fn spec_imm_len(self) -> int {
        match self {
            OpCode::Push | OpCode::LoadLocal | OpCode::StoreLocal => 1,
            OpCode::ExternalCall => 2,
            OpCode::Jump | OpCode::JumpIf | OpCode::Call => 4,
            _ => 0,
        }
    }

    /// Decodes one opcode byte.
    pub fn from_u8(byte: u8) -> (res: Option<OpCode>)
        ensures
            res == Self::spec_from_u8(byte),
    {
        match byte {
            0x01 => Some(OpCode::Push),
            0x02 => Some(OpCode::Pop),
            0x03 => Some(OpCode::Dup),
            0x10 => Some(OpCode::LoadLocal),
            0x11 => Some(OpCode::StoreLocal),
            0x20 => Some(OpCode::Add),
            0x21 => Some(OpCode::Sub),
            0x22 => Some(OpCode::Mul),
            0x23 => Some(OpCode::Div),
            0x24 => Some(OpCode::Mod),
            0x25 => Some(OpCode::Neg),
            0x30 => Some(OpCode::Equal),
            0x31 => Some(OpCode::NotEqual),
            0x32 => Some(OpCode::Less),
            0x33 => Some(OpCode::LessEqual),
            0x34 => Some(OpCode::Greater),
            0x35 => Some(OpCode::GreaterEqual),
            0x40 => Some(OpCode::Jump),
            0x41 => Some(OpCode::JumpIf),
            0x42 => Some(OpCode::Call),
            0x43 => Some(OpCode::Return),
            0x50 => Some(OpCode::ExternalCall),
            0xF0 => Some(OpCode::Nop),
            0xFF => Some(OpCode::Halt),
            _ => None,
        }
    }

    /// Encodes an opcode as its byte.
    pub fn to_u8(self) -> (byte: u8)
        ensures
            byte == self.spec_to_u8(),
            Self::spec_from_u8(byte) == Some(self),
    {
        match self {
            OpCode::Push => 0x01,
            OpCode::Pop => 0x02,
            OpCode::Dup => 0x03,
            OpCode::LoadLocal => 0x10,
            OpCode::StoreLocal => 0x11,
            OpCode::Add => 0x20,
            OpCode::Sub => 0x21,
            OpCode::Mul => 0x22,
            OpCode::Div => 0x23,
            OpCode::Mod => 0x24,
            OpCode::Neg => 0x25,
            OpCode::Equal => 0x30,
            OpCode::NotEqual => 0x31,
            OpCode::Less => 0x32,
            OpCode::LessEqual => 0x33,
            OpCode::Greater => 0x34,
            OpCode::GreaterEqual => 0x35,
            OpCode::Jump => 0x40,
            OpCode::JumpIf => 0x41,
            OpCode::Call => 0x42,
            OpCode::Return => 0x43,
            OpCode::ExternalCall => 0x50,
            OpCode::Nop => 0xF0,
            OpCode::Halt => 0xFF,
        }
    }

    /// Number of immediate bytes that follow the opcode byte.
    pub fn imm_len(self) -> (n: usize)
        ensures
            n == self.spec_imm_len(),
    {
        match self {
            OpCode::Push | OpCode::LoadLocal | OpCode::StoreLocal => 1,
            OpCode::ExternalCall => 2,
            OpCode::Jump | OpCode::JumpIf | OpCode::Call => 4,
            _ => 0,
        }
    }
}

/// Encoding and decoding are inverse: a byte decodes to an opcode exactly
/// when that opcode encodes to the byte.
pub proof fn lemma_opcode_byte_roundtrip(op: OpCode, byte: u8)
    ensures
        OpCode::spec_from_u8(op.spec_to_u8()) == Some(op),
        OpCode::spec_from_u8(byte) == Some(op) <==> op.spec_to_u8() == byte,
{
}

} // verus!
