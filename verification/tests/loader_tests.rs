use vre_core::bytecode::OpCode;
use vre_core::loader::loader::LoadedBytecode;
use vre_core::vm::value::Value;
use vre_core::{BytecodeLoader, VreError};

fn header(entry_point: u32) -> Vec<u8> {
    let mut buf = Vec::new();
    buf.extend(&0x5659_4D41u32.to_be_bytes());
    buf.push(1u8);
    buf.push(0u8);
    buf.push(0u8);
    buf.push(0u8);
    buf.extend(&entry_point.to_be_bytes());
    buf
}

fn file(constants: &[u8], count: u32, instr: &[u8]) -> Vec<u8> {
    let mut buf = header(0);
    buf.extend(&count.to_be_bytes());
    buf.extend(constants);
    buf.extend(&(instr.len() as u32).to_be_bytes());
    buf.extend(instr);
    buf
}

fn program(instr: &[u8]) -> Vec<u8> {
    file(&[], 0, instr)
}

fn load_err(bytes: &[u8]) -> VreError {
    match BytecodeLoader::load(bytes) {
        Ok(_) => panic!("the loader accepted the program"),
        Err(e) => e,
    }
}

fn load_ok(bytes: &[u8]) -> LoadedBytecode {
    match BytecodeLoader::load(bytes) {
        Ok(b) => b,
        Err(e) => panic!("the loader rejected the program: {:?}", e),
    }
}

#[test]
fn scc_summary_accepts_mutual_recursion() {
    let mut buf = Vec::new();
    buf.extend(&0x5659_4D41u32.to_be_bytes());
    buf.push(1u8);
    buf.push(0u8);
    buf.push(0u8);
    buf.push(0u8);
    buf.extend(&(0u32.to_be_bytes()));

    // zero constants
    buf.extend(&(0u32.to_be_bytes()));

    let mut instr: Vec<u8> = Vec::new();
    // funcA
    instr.push(OpCode::Push.to_u8());
    instr.push(0u8);
    instr.push(OpCode::Pop.to_u8());
    instr.push(OpCode::Call.to_u8());
    instr.extend(&(8u32.to_be_bytes()));
    instr.push(OpCode::Return.to_u8());
    // funcB
    instr.push(OpCode::Push.to_u8());
    instr.push(0u8);
    instr.push(OpCode::Pop.to_u8());
    instr.push(OpCode::Call.to_u8());
    instr.extend(&(0u32.to_be_bytes()));
    instr.push(OpCode::Return.to_u8());
    // final Halt
    instr.push(OpCode::Halt.to_u8());

    buf.extend(&((instr.len() as u32).to_be_bytes()));
    buf.extend(&instr);

    let instr_len = u32::from_be_bytes([buf[16], buf[17], buf[18], buf[19]]) as usize;
    let instr_bytes = &buf[20..20 + instr_len];
    let mut i = 0usize;
    while i < instr_bytes.len() {
        let b = instr_bytes[i];
        if OpCode::from_u8(b).is_none() {
            panic!("invalid opcode byte 0x{:02X} at instr offset {}", b, i);
        }
        match OpCode::from_u8(b).unwrap() {
            OpCode::Push | OpCode::LoadLocal | OpCode::StoreLocal => {
                i += 2;
            }
            OpCode::ExternalCall => {
                i += 3;
            }
            OpCode::Jump | OpCode::JumpIf | OpCode::Call => {
                i += 5;
            }
            _ => {
                i += 1;
            }
        }
    }

    match BytecodeLoader::load(&buf) {
        Ok(_) => {}
        Err(e) => panic!("loader rejected SCC bytecode: {:?}", e),
    }
}

#[test]
fn lenient_loader_opt_in_allows_weak_parse() {
    let mut buf = Vec::new();
    buf.extend(&0x5659_4D41u32.to_be_bytes());
    buf.push(1u8);
    buf.push(0u8);
    buf.push(0u8);
    buf.push(0u8);
    buf.extend(&(0u32.to_be_bytes()));
    buf.extend(&(0u32.to_be_bytes()));

    let big_target: u32 = 0x00FF_FFFF;
    let instr = vec![
        OpCode::Call.to_u8(),
        (big_target >> 24) as u8,
        (big_target >> 16) as u8,
        (big_target >> 8) as u8,
        (big_target) as u8,
        OpCode::Halt.to_u8(),
    ];

    buf.extend(&(instr.len() as u32).to_be_bytes());
    buf.extend(&instr);

    let strict = BytecodeLoader::load(&buf);
    assert!(strict.is_err());

    let optin = BytecodeLoader::load_with_opt_in(&buf, true).expect("lenient load failed");
    assert!(optin.1, "expected lenient path to be used");
    let loaded = optin.0;
    assert_eq!(loaded.entry_point, 0);
    assert_eq!(loaded.instructions.len(), instr.len());
}

#[test]
fn strict_load_reports_the_bad_call_target() {
    let buf = program(&[0x42, 0x00, 0xFF, 0xFF, 0xFF, 0xFF]);
    assert_eq!(load_err(&buf), VreError::InvalidJumpTarget(0x00FF_FFFF));
    assert_eq!(
        BytecodeLoader::load_with_opt_in(&buf, false).err(),
        Some(VreError::InvalidJumpTarget(0x00FF_FFFF))
    );
}

#[test]
fn opt_in_is_not_used_where_strict_load_succeeds() {
    let buf = program(&[0xFF]);
    let (loaded, lenient) = BytecodeLoader::load_with_opt_in(&buf, true).expect("load failed");
    assert!(!lenient);
    assert_eq!(loaded.instructions, vec![0xFF]);
}

#[test]
fn lenient_load_still_checks_instruction_lengths() {
    // Push without its immediate byte
    let buf = program(&[0x01]);
    assert_eq!(
        BytecodeLoader::load_with_opt_in(&buf, true).err(),
        Some(VreError::MalformedBytecode)
    );
    // unknown opcode
    let buf = program(&[0x77]);
    assert_eq!(
        BytecodeLoader::load_with_opt_in(&buf, true).err(),
        Some(VreError::InvalidOpcode(0x77))
    );
}

#[test]
fn pop_before_push_is_rejected() {
    let buf = program(&[0x02]);
    assert_eq!(load_err(&buf), VreError::MalformedBytecode);
}

#[test]
fn external_call_with_too_few_arguments_is_rejected() {
    let mut constants = vec![0x02u8];
    constants.extend(&3.14f64.to_be_bytes());
    let buf = file(&constants, 1, &[0x01, 0x00, 0x50, 0x2A, 0x02, 0xFF]);
    assert_eq!(load_err(&buf), VreError::MalformedBytecode);
}

#[test]
fn external_call_with_enough_arguments_is_accepted() {
    let mut constants = vec![0x02u8];
    constants.extend(&3.14f64.to_be_bytes());
    let buf = file(&constants, 1, &[0x01, 0x00, 0x50, 0x2A, 0x01, 0xFF]);
    let loaded = load_ok(&buf);
    assert_eq!(loaded.constants, vec![Value::Number(3.14f64.to_bits())]);
    assert_eq!(loaded.instructions, vec![0x01, 0x00, 0x50, 0x2A, 0x01, 0xFF]);
    assert_eq!(loaded.caps, vec![0x2A]);
}

#[test]
fn short_file_is_too_short() {
    assert_eq!(load_err(&[]), VreError::BytecodeTooShort);
    assert_eq!(load_err(&header(0)), VreError::BytecodeTooShort);
    let mut buf = header(0);
    buf.extend(&0u32.to_be_bytes());
    // the instruction length is missing
    assert_eq!(load_err(&buf), VreError::BytecodeTooShort);
    buf.extend(&3u32.to_be_bytes());
    buf.push(0xFF);
    // fewer instruction bytes than announced
    assert_eq!(load_err(&buf), VreError::BytecodeTooShort);
}

#[test]
fn wrong_magic_is_reported() {
    let mut buf = program(&[0xFF]);
    buf[3] = 0x42;
    assert_eq!(load_err(&buf), VreError::InvalidMagicNumber);
}

#[test]
fn wrong_major_version_is_reported() {
    let mut buf = program(&[0xFF]);
    buf[4] = 2;
    assert_eq!(load_err(&buf), VreError::InvalidBytecodeVersion);
}

#[test]
fn minor_patch_and_reserved_bytes_are_ignored() {
    let mut buf = program(&[0xFF]);
    buf[5] = 9;
    buf[6] = 8;
    buf[7] = 7;
    let loaded = load_ok(&buf);
    assert_eq!(loaded.instructions, vec![0xFF]);
}

#[test]
fn constants_of_every_tag_are_read() {
    let mut constants = vec![0x00u8, 0x01, 0x00, 0x01, 0x05, 0x02];
    constants.extend(&(-2.5f64).to_be_bytes());
    constants.push(0xFF);
    constants.extend(&0xDEAD_BEEFu32.to_be_bytes());
    let mut buf = header(0x0102_0304);
    buf.extend(&5u32.to_be_bytes());
    buf.extend(&constants);
    buf.extend(&1u32.to_be_bytes());
    buf.push(0xFF);
    let loaded = load_ok(&buf);
    assert_eq!(
        loaded.constants,
        vec![
            Value::Null,
            Value::Bool(false),
            Value::Bool(true),
            Value::Number((-2.5f64).to_bits()),
            Value::Ref(0xDEAD_BEEF),
        ]
    );
    assert_eq!(loaded.entry_point, 0x0102_0304);
    assert_eq!(loaded.instructions, vec![0xFF]);
    assert!(loaded.caps.is_empty());
}

#[test]
fn number_constant_keeps_its_bits() {
    let mut constants = vec![0x02u8];
    constants.extend(&[0x40, 0x09, 0x1E, 0xB8, 0x51, 0xEB, 0x85, 0x1F]);
    let buf = file(&constants, 1, &[]);
    let loaded = load_ok(&buf);
    assert_eq!(loaded.constants, vec![Value::Number(0x4009_1EB8_51EB_851F)]);
    assert_eq!(f64::from_bits(0x4009_1EB8_51EB_851F), 3.14);
}

#[test]
fn unknown_constant_tag_is_malformed() {
    let buf = file(&[0x03], 1, &[0xFF]);
    assert_eq!(load_err(&buf), VreError::MalformedBytecode);
}

#[test]
fn truncated_constant_is_too_short() {
    let mut buf = header(0);
    buf.extend(&1u32.to_be_bytes());
    buf.extend(&[0x02, 0x40, 0x09]);
    assert_eq!(load_err(&buf), VreError::BytecodeTooShort);
    let mut buf = header(0);
    buf.extend(&2u32.to_be_bytes());
    buf.push(0x00);
    assert_eq!(load_err(&buf), VreError::BytecodeTooShort);
}

#[test]
fn bytes_behind_the_instructions_are_ignored() {
    let mut buf = program(&[0xFF]);
    buf.extend(&[1, 2, 3]);
    assert_eq!(load_ok(&buf).instructions, vec![0xFF]);
}

#[test]
fn empty_instruction_stream_is_accepted() {
    let loaded = load_ok(&program(&[]));
    assert!(loaded.instructions.is_empty());
    assert!(loaded.caps.is_empty());
}

#[test]
fn unknown_opcode_is_reported_with_its_byte() {
    assert_eq!(load_err(&program(&[0xF0, 0xAB])), VreError::InvalidOpcode(0xAB));
}

#[test]
fn truncated_immediate_is_malformed() {
    assert_eq!(load_err(&program(&[0x40, 0x00, 0x00])), VreError::MalformedBytecode);
    assert_eq!(load_err(&program(&[0x50, 0x01])), VreError::MalformedBytecode);
}

#[test]
fn jump_into_an_immediate_is_rejected() {
    // Push 0; Jump 1; Halt
    let buf = program(&[0x01, 0x00, 0x40, 0x00, 0x00, 0x00, 0x01, 0xFF]);
    assert_eq!(load_err(&buf), VreError::InvalidJumpTarget(1));
}

#[test]
fn jump_to_the_end_of_the_stream_is_rejected() {
    let buf = program(&[0x40, 0x00, 0x00, 0x00, 0x05]);
    assert_eq!(load_err(&buf), VreError::InvalidJumpTarget(5));
}

#[test]
fn first_bad_target_is_the_one_reported() {
    // Jump 3 (bad); Jump 7 (bad)
    let buf = program(&[0x40, 0x00, 0x00, 0x00, 0x03, 0x40, 0x00, 0x00, 0x00, 0x07]);
    assert_eq!(load_err(&buf), VreError::InvalidJumpTarget(3));
}

#[test]
fn smaller_height_wins_where_paths_meet() {
    // 0: Push 0; 2: Push 0; 4: JumpIf 11; 9: Push 0; 11: Pop; 12: Pop; 13: Halt
    let code = [
        0x01, 0x00, 0x01, 0x00, 0x41, 0x00, 0x00, 0x00, 0x0B, 0x01, 0x00, 0x02, 0x02, 0xFF,
    ];
    assert_eq!(load_err(&program(&code)), VreError::MalformedBytecode);
    // the same with the jump to offset 9: both paths reach offset 11 at height 2
    let code = [
        0x01, 0x00, 0x01, 0x00, 0x41, 0x00, 0x00, 0x00, 0x09, 0x01, 0x00, 0x02, 0x02, 0xFF,
    ];
    load_ok(&program(&code));
}

#[test]
fn loop_that_drains_the_stack_is_rejected() {
    // 0: Push 0; 2: Pop; 3: Jump 2
    let code = [0x01, 0x00, 0x02, 0x40, 0x00, 0x00, 0x00, 0x02];
    assert_eq!(load_err(&program(&code)), VreError::MalformedBytecode);
}

#[test]
fn loop_that_fills_the_stack_is_accepted() {
    // 0: Push 0; 2: Jump 0
    let code = [0x01, 0x00, 0x40, 0x00, 0x00, 0x00, 0x00];
    load_ok(&program(&code));
}

#[test]
fn call_applies_the_summary_of_the_callee() {
    // 0: Call 7; 5: Pop; 6: Halt; 7: Push 0; 9: Return
    let code = [0x42, 0x00, 0x00, 0x00, 0x07, 0x02, 0xFF, 0x01, 0x00, 0x43];
    load_ok(&program(&code));
    // 0: Call 7; 5: Pop; 6: Halt; 7: Nop ... the callee never returns
    let code = [0x42, 0x00, 0x00, 0x00, 0x07, 0x02, 0xFF, 0xF0];
    assert_eq!(load_err(&program(&code)), VreError::MalformedBytecode);
    // 0: Call 7; 5: Pop; 6: Halt; 7: Return: nothing to pop behind the call
    let code = [0x42, 0x00, 0x00, 0x00, 0x07, 0x02, 0xFF, 0x43];
    assert_eq!(load_err(&program(&code)), VreError::MalformedBytecode);
}

#[test]
fn callee_with_returns_at_two_heights_has_no_summary() {
    // 0: Call 6; 5: Halt; 6: Push 0; 8: JumpIf 15; 13: Push 0; 15: Return
    let code = [
        0x42, 0x00, 0x00, 0x00, 0x06, 0xFF, 0x01, 0x00, 0x41, 0x00, 0x00, 0x00, 0x0F, 0x01, 0x00,
        0x43,
    ];
    // the return is reached at heights 0 and 1; the smaller stays
    load_ok(&program(&code));
    // 0: Call 6; 5: Halt; 6: Push 0; 8: JumpIf 14; 13: Return; 14: Push 0; 16: Return
    let code = [
        0x42, 0x00, 0x00, 0x00, 0x06, 0xFF, 0x01, 0x00, 0x41, 0x00, 0x00, 0x00, 0x0E, 0x43, 0x01,
        0x00, 0x43,
    ];
    assert_eq!(load_err(&program(&code)), VreError::MalformedBytecode);
}

#[test]
fn callee_that_pops_below_its_entry_has_no_summary() {
    // 0: Push 0; 2: Call 8; 7: Halt; 8: Pop; 9: Return
    let code = [0x01, 0x00, 0x42, 0x00, 0x00, 0x00, 0x08, 0xFF, 0x02, 0x43];
    assert_eq!(load_err(&program(&code)), VreError::MalformedBytecode);
}

#[test]
fn external_call_inside_a_callee_is_rejected() {
    // 0: Call 6; 5: Halt; 6: ExternalCall 1 0; 9: Return
    let code = [0x42, 0x00, 0x00, 0x00, 0x06, 0xFF, 0x50, 0x01, 0x00, 0x43];
    assert_eq!(load_err(&program(&code)), VreError::MalformedBytecode);
}

#[test]
fn callees_that_call_each_other_get_summaries() {
    // 0: Call 6; 5: Halt
    // 6: Push 0; 8: Pop; 9: Call 15; 14: Return
    // 15: Push 0; 17: Pop; 18: Call 6; 23: Return
    let code = [
        0x42, 0x00, 0x00, 0x00, 0x06, 0xFF, 0x01, 0x00, 0x02, 0x42, 0x00, 0x00, 0x00, 0x0F, 0x43,
        0x01, 0x00, 0x02, 0x42, 0x00, 0x00, 0x00, 0x06, 0x43,
    ];
    load_ok(&program(&code));
}

#[test]
fn caps_are_those_of_reachable_external_calls() {
    // 0: Halt; 1: ExternalCall 7 0
    let buf = program(&[0xFF, 0x50, 0x07, 0x00]);
    assert!(load_ok(&buf).caps.is_empty());
    assert_eq!(BytecodeLoader::collect_caps(&buf).expect("collect failed"), vec![7]);
    // 0: ExternalCall 9 0; 3: ExternalCall 3 0; 6: ExternalCall 9 0; 9: Halt
    let buf = program(&[0x50, 0x09, 0x00, 0x50, 0x03, 0x00, 0x50, 0x09, 0x00, 0xFF]);
    assert_eq!(load_ok(&buf).caps, vec![3, 9]);
    assert_eq!(BytecodeLoader::collect_caps(&buf).expect("collect failed"), vec![3, 9]);
}

#[test]
fn collect_caps_reports_layout_errors() {
    assert_eq!(BytecodeLoader::collect_caps(&[]).err(), Some(VreError::BytecodeTooShort));
    assert_eq!(
        BytecodeLoader::collect_caps(&program(&[0x99])).err(),
        Some(VreError::InvalidOpcode(0x99))
    );
}

#[test]
fn cursor_reads_advance_and_stop_at_the_end() {
    let bytes = [0x12u8, 0x34, 0x56, 0x78, 0x9A];
    let mut cursor = 0usize;
    assert_eq!(BytecodeLoader::read_u32(&bytes, &mut cursor), Ok(0x1234_5678));
    assert_eq!(cursor, 4);
    assert_eq!(BytecodeLoader::read_u32(&bytes, &mut cursor), Err(VreError::BytecodeTooShort));
    assert_eq!(cursor, 4);
    assert_eq!(BytecodeLoader::read_u8(&bytes, &mut cursor), Ok(0x9A));
    assert_eq!(cursor, 5);
    assert_eq!(BytecodeLoader::read_u8(&bytes, &mut cursor), Err(VreError::BytecodeTooShort));
    let mut cursor = 0usize;
    let eight = [0x40u8, 0x45, 0, 0, 0, 0, 0, 0];
    assert_eq!(BytecodeLoader::read_number_bits(&eight, &mut cursor), Ok(42.0f64.to_bits()));
    assert_eq!(cursor, 8);
}

#[test]
fn written_file_loads_to_the_same_content() {
    let bundle = LoadedBytecode {
        constants: vec![
            Value::Null,
            Value::Bool(true),
            Value::Bool(false),
            Value::Number(3.14f64.to_bits()),
            Value::Number(f64::NAN.to_bits()),
            Value::Ref(0xFFFF_FFFF),
        ],
        instructions: vec![0x01, 0x03, 0x50, 0x07, 0x01, 0xFF],
        entry_point: 5,
        caps: vec![],
    };
    let bytes = vre_core::loader::encode::encode(&bundle).expect("fits in 32 bits");
    let loaded = load_ok(&bytes);
    assert_eq!(loaded.constants, bundle.constants);
    assert_eq!(loaded.instructions, bundle.instructions);
    assert_eq!(loaded.entry_point, 5);
    assert_eq!(loaded.caps, vec![7]);
    let again = vre_core::loader::encode::encode(&loaded).expect("fits in 32 bits");
    assert_eq!(again, bytes);
}

#[test]
fn sample_program_is_byte_exact() {
    let bytes = vre_core::loader::encode::sample_bytecode();
    let mut expected = vec![0x56, 0x59, 0x4D, 0x41, 1, 0, 0, 0, 0, 0, 0, 0, 0, 0, 0, 1, 0x02];
    expected.extend(&3.14f64.to_be_bytes());
    expected.extend(&[0, 0, 0, 6, 0x01, 0x00, 0x50, 42, 1, 0xFF]);
    assert_eq!(bytes, expected);
    let loaded = load_ok(&bytes);
    assert_eq!(loaded.caps, vec![42]);
}

#[test]
fn two_callees_that_bounce_to_each_other_are_accepted() {
    // A at 0: Push 0; Pop; Call 9; Return.  B at 9: Push 0; Pop; Call 0; Return.
    let code = [
        0x01, 0x00, 0x02, 0x42, 0x00, 0x00, 0x00, 0x09, 0x43, 0x01, 0x00, 0x02, 0x42, 0x00, 0x00,
        0x00, 0x00, 0x43,
    ];
    let loaded = load_ok(&program(&code));
    assert!(loaded.caps.is_empty());
    // the same pair behind other code that calls into it
    let code = [
        0x42, 0x00, 0x00, 0x00, 0x0F, 0x01, 0x00, 0x02, 0xFF, 0x43, 0x43, 0x43, 0x43, 0x43, 0x43,
        0x01, 0x00, 0x02, 0x42, 0x00, 0x00, 0x00, 0x18, 0x43, 0x01, 0x00, 0x02, 0x42, 0x00, 0x00,
        0x00, 0x0F, 0x43,
    ];
    load_ok(&program(&code));
}
