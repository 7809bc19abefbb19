//! The closed set of error kinds that the engine reports.

use vstd::prelude::*;
use vstd::string::StringExecFns;

verus! {

/// Every failure of the loader and of the machine is one of these.
#[derive(Debug, Clone, PartialEq, Eq)]
pub enum VreError {
    InvalidMagicNumber,
    InvalidBytecodeVersion,
    InvalidOpcode(u8),
    MalformedBytecode,
    BytecodeTooShort,
    StackOverflow,
    StackUnderflow,
    InvalidStackAccess,
    InvalidLocalAccess(usize),
    InvalidConstantAccess(usize),
    DivisionByZero,
    InvalidJumpTarget(usize),
    InvalidFunctionIndex(usize),
    CapabilityNotGranted,
    CapabilityDenied,
    SecurityViolation,
    OutOfMemory,
    TypeMismatch,
    RuntimeFault,
    IoError(String),
}

pub type VreResult<T> = Result<T, VreError>;

/// The character of one hexadecimal digit, in upper case.
pub open spec fn spec_digit_text(d: int) -> Seq<char> {
    if d == 0 {
        "0"@
    } else if d == 1 {
        "1"@
    } else if d == 2 {
        "2"@
    } else if d == 3 {
        "3"@
    } else if d == 4 {
        "4"@
    } else if d == 5 {
        "5"@
    } else if d == 6 {
        "6"@
    } else if d == 7 {
        "7"@
    } else if d == 8 {
        "8"@
    } else if d == 9 {
        "9"@
    } else if d == 10 {
        "A"@
    } else if d == 11 {
        "B"@
    } else if d == 12 {
        "C"@
    } else if d == 13 {
        "D"@
    } else if d == 14 {
        "E"@
    } else {
        "F"@
    }
}

/// A byte as two hexadecimal digits.
pub open spec fn spec_hex_byte(b: u8) -> Seq<char> {
    spec_digit_text(b as int / 16) + spec_digit_text(b as int % 16)
}

/// A number in decimal, without leading zeros.
pub open spec fn spec_decimal(n: nat) -> Seq<char>
    decreases n,
{
    if n < 10 {
        spec_digit_text(n as int)
    } else {
        spec_decimal(n / 10) + spec_digit_text(n as int % 10)
    }
}

/// The text that describes an error.
pub open spec fn spec_message(e: VreError) -> Seq<char> {
    match e {
        VreError::InvalidMagicNumber => "invalid bytecode magic number"@,
        VreError::InvalidBytecodeVersion => "incompatible bytecode version"@,
        VreError::InvalidOpcode(op) => "invalid opcode: 0x"@ + spec_hex_byte(op),
        VreError::MalformedBytecode => "malformed bytecode"@,
        VreError::BytecodeTooShort => "bytecode is too short"@,
        VreError::StackOverflow => "stack overflow"@,
        VreError::StackUnderflow => "stack underflow"@,
        VreError::InvalidStackAccess => "invalid stack access"@,
        VreError::InvalidLocalAccess(idx) => "invalid local access: "@ + spec_decimal(idx as nat),
        VreError::InvalidConstantAccess(idx) => "invalid constant access: "@ + spec_decimal(
            idx as nat,
        ),
        VreError::DivisionByZero => "division by zero"@,
        VreError::InvalidJumpTarget(addr) => "invalid jump target: "@ + spec_decimal(addr as nat),
        VreError::InvalidFunctionIndex(idx) => "invalid function index: "@ + spec_decimal(
            idx as nat,
        ),
        VreError::CapabilityNotGranted => "capability not granted"@,
        VreError::CapabilityDenied => "capability denied"@,
        VreError::SecurityViolation => "security violation"@,
        VreError::OutOfMemory => "out of memory"@,
        VreError::TypeMismatch => "type mismatch"@,
        VreError::RuntimeFault => "runtime fault"@,
        VreError::IoError(msg) => "io error: "@ + msg@,
    }
}

/// The character of one hexadecimal digit, in upper case.
pub fn digit_text(d: u8) -> (t: &'static str)
    requires
        d < 16,
    ensures
        t@ == spec_digit_text(d as int),
{
    match d {
        0 => "0",
        1 => "1",
        2 => "2",
        3 => "3",
        4 => "4",
        5 => "5",
        6 => "6",
        7 => "7",
        8 => "8",
        9 => "9",
        10 => "A",
        11 => "B",
        12 => "C",
        13 => "D",
        14 => "E",
        _ => "F",
    }
}

/// A number in decimal, appended to `prefix`.
pub fn with_decimal(prefix: &str, n: usize) -> (text: String)
    ensures
        text@ == prefix@ + spec_decimal(n as nat),
    decreases n,
{
    if n < 10 {
        let mut text = String::from_str(prefix);
        text.append(digit_text(n as u8));
        text
    } else {
        let mut text = with_decimal(prefix, n / 10);
        text.append(digit_text((n % 10) as u8));
        assert(text@ =~= prefix@ + spec_decimal(n as nat));
        text
    }
}

impl VreError {
    /// The text that describes the error.
    pub fn message(&self) -> (text: String)
        ensures
            text@ == spec_message(*self),
    {
        match self {
            VreError::InvalidMagicNumber => String::from_str("invalid bytecode magic number"),
            VreError::InvalidBytecodeVersion => String::from_str("incompatible bytecode version"),
            VreError::InvalidOpcode(op) => {
                let mut text = String::from_str("invalid opcode: 0x");
                text.append(digit_text(*op / 16));
                text.append(digit_text(*op % 16));
                assert(text@ =~= "invalid opcode: 0x"@ + spec_hex_byte(*op));
                text
            },
            VreError::MalformedBytecode => String::from_str("malformed bytecode"),
            VreError::BytecodeTooShort => String::from_str("bytecode is too short"),
            VreError::StackOverflow => String::from_str("stack overflow"),
            VreError::StackUnderflow => String::from_str("stack underflow"),
            VreError::InvalidStackAccess => String::from_str("invalid stack access"),
            VreError::InvalidLocalAccess(idx) => with_decimal("invalid local access: ", *idx),
            VreError::InvalidConstantAccess(idx) => with_decimal(
                "invalid constant access: ",
                *idx,
            ),
            VreError::DivisionByZero => String::from_str("division by zero"),
            VreError::InvalidJumpTarget(addr) => with_decimal("invalid jump target: ", *addr),
            VreError::InvalidFunctionIndex(idx) => with_decimal("invalid function index: ", *idx),
            VreError::CapabilityNotGranted => String::from_str("capability not granted"),
            VreError::CapabilityDenied => String::from_str("capability denied"),
            VreError::SecurityViolation => String::from_str("security violation"),
            VreError::OutOfMemory => String::from_str("out of memory"),
            VreError::TypeMismatch => String::from_str("type mismatch"),
            VreError::RuntimeFault => String::from_str("runtime fault"),
            VreError::IoError(msg) => {
                let mut text = String::from_str("io error: ");
                text.append(msg.as_str());
                text
            },
        }
    }
}

} // verus!
