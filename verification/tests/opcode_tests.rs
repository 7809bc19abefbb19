use vre_core::bytecode::{Instruction, OpCode};
use vre_core::capability::CapabilityId;
use vre_core::{CapabilityRegistry, VreConfig, VreError};

#[test]
fn opcode_bytes_are_stable() {
    let table = [
        (OpCode::Push, 0x01u8),
        (OpCode::Pop, 0x02),
        (OpCode::Dup, 0x03),
        (OpCode::LoadLocal, 0x10),
        (OpCode::StoreLocal, 0x11),
        (OpCode::Add, 0x20),
        (OpCode::Sub, 0x21),
        (OpCode::Mul, 0x22),
        (OpCode::Div, 0x23),
        (OpCode::Mod, 0x24),
        (OpCode::Neg, 0x25),
        (OpCode::Equal, 0x30),
        (OpCode::NotEqual, 0x31),
        (OpCode::Less, 0x32),
        (OpCode::LessEqual, 0x33),
        (OpCode::Greater, 0x34),
        (OpCode::GreaterEqual, 0x35),
        (OpCode::Jump, 0x40),
        (OpCode::JumpIf, 0x41),
        (OpCode::Call, 0x42),
        (OpCode::Return, 0x43),
        (OpCode::ExternalCall, 0x50),
        (OpCode::Nop, 0xF0),
        (OpCode::Halt, 0xFF),
    ];
    for (op, byte) in table {
        assert_eq!(op.to_u8(), byte);
        assert_eq!(OpCode::from_u8(byte), Some(op));
    }
}

#[test]
fn every_byte_decodes_to_an_opcode_that_encodes_to_it() {
    let mut known = 0;
    for byte in 0..=255u8 {
        if let Some(op) = OpCode::from_u8(byte) {
            assert_eq!(op.to_u8(), byte);
            known += 1;
        }
    }
    assert_eq!(known, 24);
    assert_eq!(OpCode::from_u8(0x00), None);
    assert_eq!(OpCode::from_u8(0x44), None);
}

#[test]
fn immediate_lengths() {
    assert_eq!(OpCode::Push.imm_len(), 1);
    assert_eq!(OpCode::StoreLocal.imm_len(), 1);
    assert_eq!(OpCode::ExternalCall.imm_len(), 2);
    assert_eq!(OpCode::Jump.imm_len(), 4);
    assert_eq!(OpCode::Call.imm_len(), 4);
    assert_eq!(OpCode::Add.imm_len(), 0);
    assert_eq!(OpCode::Halt.imm_len(), 0);
}

#[test]
fn instruction_builders() {
    let a = Instruction::new(OpCode::Halt);
    assert_eq!(a.opcode, OpCode::Halt);
    assert_eq!(a.operand, 0);
    let b = Instruction::with_operand(OpCode::Push, 0x1234);
    assert_eq!(b.opcode, OpCode::Push);
    assert_eq!(b.operand, 0x1234);
}

#[test]
fn default_limits() {
    let c = VreConfig::new();
    assert_eq!(c.max_stack_size, 1024);
    assert_eq!(c.max_locals, 256);
    assert_eq!(c.max_call_depth, 256);
    let d = VreConfig::default();
    assert_eq!(d.max_stack_size, 1024);
    assert_eq!(d.max_locals, 256);
    assert_eq!(d.max_call_depth, 256);
}

#[test]
fn registry_denies_until_granted() {
    let mut r = CapabilityRegistry::new();
    assert_eq!(r.check(7), Err(VreError::CapabilityDenied));
    r.grant(CapabilityId(7));
    assert_eq!(r.check(7), Ok(()));
    assert_eq!(r.check(8), Err(VreError::CapabilityDenied));
    assert!(r.is_granted(7));
    r.grant(CapabilityId(7));
    r.revoke(&CapabilityId(7));
    assert_eq!(r.check(7), Err(VreError::CapabilityDenied));
    r.revoke(&CapabilityId(7));
    assert!(!r.is_granted(7));
}

#[test]
fn capability_id_converts_both_ways() {
    let id = CapabilityId::from(42u8);
    assert_eq!(id, CapabilityId(42));
    assert_eq!(u8::from(id), 42);
}

#[test]
fn error_messages() {
    assert_eq!(VreError::InvalidMagicNumber.message(), "invalid bytecode magic number");
    assert_eq!(VreError::InvalidBytecodeVersion.message(), "incompatible bytecode version");
    assert_eq!(VreError::InvalidOpcode(0x0A).message(), "invalid opcode: 0x0A");
    assert_eq!(VreError::InvalidOpcode(0xFE).message(), "invalid opcode: 0xFE");
    assert_eq!(VreError::MalformedBytecode.message(), "malformed bytecode");
    assert_eq!(VreError::BytecodeTooShort.message(), "bytecode is too short");
    assert_eq!(VreError::StackOverflow.message(), "stack overflow");
    assert_eq!(VreError::StackUnderflow.message(), "stack underflow");
    assert_eq!(VreError::InvalidStackAccess.message(), "invalid stack access");
    assert_eq!(VreError::InvalidLocalAccess(0).message(), "invalid local access: 0");
    assert_eq!(VreError::InvalidConstantAccess(255).message(), "invalid constant access: 255");
    assert_eq!(VreError::DivisionByZero.message(), "division by zero");
    assert_eq!(VreError::InvalidJumpTarget(16777215).message(), "invalid jump target: 16777215");
    assert_eq!(VreError::InvalidFunctionIndex(10).message(), "invalid function index: 10");
    assert_eq!(VreError::CapabilityNotGranted.message(), "capability not granted");
    assert_eq!(VreError::CapabilityDenied.message(), "capability denied");
    assert_eq!(VreError::SecurityViolation.message(), "security violation");
    assert_eq!(VreError::OutOfMemory.message(), "out of memory");
    assert_eq!(VreError::TypeMismatch.message(), "type mismatch");
    assert_eq!(VreError::RuntimeFault.message(), "runtime fault");
    assert_eq!(VreError::IoError("disk gone".to_string()).message(), "io error: disk gone");
}
