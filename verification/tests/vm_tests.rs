use vre_core::bytecode::OpCode;
use vre_core::config::VreConfig;
use vre_core::loader::loader::LoadedBytecode;
use vre_core::vm::memory::{ConstantPool, Globals, Locals};
use vre_core::vm::number::{compare, is_nan, is_zero, negate, ArithOp, CompareOp};
use vre_core::vm::stack::Stack;
use vre_core::vm::value::Value;
use vre_core::vm::vm::StateChange;
use vre_core::vm::VirtualMachine;
use vre_core::vol::{complete_external_call, consume_external_call, first_external_request};
use vre_core::{VreError, VreResult};

fn float_unit(op: ArithOp, a: u64, b: u64) -> u64 {
    let x = f64::from_bits(a);
    let y = f64::from_bits(b);
    let r = match op {
        ArithOp::Add => x + y,
        ArithOp::Sub => x - y,
        ArithOp::Mul => x * y,
        ArithOp::Div => x / y,
        ArithOp::Mod => x % y,
    };
    r.to_bits()
}

fn num(x: f64) -> Value {
    Value::Number(x.to_bits())
}

fn small(max_stack_size: usize, max_locals: usize, max_call_depth: usize) -> VreConfig {
    VreConfig { max_stack_size, max_locals, max_call_depth }
}

fn run(constants: Vec<Value>, code: Vec<u8>) -> (VirtualMachine, VreResult<()>) {
    let mut vm = VirtualMachine::new(VreConfig::new(), constants, code, 0);
    let res = vm.execute(&float_unit);
    (vm, res)
}

fn stack_of(vm: &mut VirtualMachine) -> Vec<Value> {
    let mut out = Vec::new();
    while let Ok(v) = vm.pop_top() {
        out.push(v);
    }
    out.reverse();
    out
}

#[test]
fn host_handler_integration() {
    let config = VreConfig::new();
    let constants = vec![Value::Number(3.0f64.to_bits())];
    let instructions = vec![
        OpCode::Push.to_u8(),
        0u8,
        OpCode::ExternalCall.to_u8(),
        5u8,
        1u8,
        OpCode::Halt.to_u8(),
    ];

    let mut vm = VirtualMachine::new(config, constants, instructions, 0);
    vm.grant_capability(5u8);
    vm.execute(&float_unit).expect("execution failed");

    fn handler(_cap: u8, args: &[Value]) -> VreResult<Vec<Value>> {
        assert_eq!(args.len(), 1);
        assert_eq!(args[0], Value::Number(3.0f64.to_bits()));
        Ok(vec![Value::Number(42.0f64.to_bits())])
    }

    consume_external_call(&mut vm, handler).expect("host handler failed");
    vm.execute(&float_unit).expect("resume failed");
    let top = vm.peek_top().expect("peek failed");
    assert_eq!(top, Value::Number(42.0f64.to_bits()));
}

#[test]
fn store_local_emits_a_local_store_event() {
    let config = small(1024, 1, 256);
    let mut vm = VirtualMachine::new(config, vec![num(42.0)], vec![0x01, 0x00, 0x11, 0x00, 0xFF], 0);
    assert_eq!(vm.execute(&float_unit), Ok(()));
    assert_eq!(
        vm.drain_state_changes(),
        vec![StateChange::LocalStore { index: 0, value: num(42.0) }]
    );
    assert!(vm.is_halted());
    assert_eq!(vm.stack_size(), 0);
}

#[test]
fn external_call_with_granted_capability_suspends() {
    let mut vm = VirtualMachine::new(
        VreConfig::new(),
        vec![Value::Ref(7)],
        vec![0x01, 0x00, 0x50, 0x2A, 0x01, 0xFF],
        0,
    );
    vm.grant_capability(0x2A);
    assert_eq!(vm.execute(&float_unit), Ok(()));
    assert_eq!(
        vm.drain_state_changes(),
        vec![StateChange::ExternalCallRequest { cap_id: 0x2A, args: vec![Value::Ref(7)] }]
    );
    assert!(vm.is_halted());
    assert_eq!(vm.ip(), 5);
    assert_eq!(vm.stack_size(), 0);
}

#[test]
fn external_call_without_capability_is_denied() {
    let mut vm = VirtualMachine::new(
        VreConfig::new(),
        vec![Value::Ref(7)],
        vec![0x01, 0x00, 0x50, 0x2A, 0x01, 0xFF],
        0,
    );
    assert_eq!(vm.execute(&float_unit), Err(VreError::CapabilityDenied));
    assert!(vm.is_halted());
    assert!(vm.drain_state_changes().is_empty());
    vm.grant_capability(0x2A);
    vm.revoke_capability(0x2A);
    vm.resume();
    assert_eq!(vm.execute(&float_unit), Err(VreError::CapabilityDenied));
}

#[test]
fn external_call_arguments_come_in_stack_order() {
    let mut vm = VirtualMachine::new(
        VreConfig::new(),
        vec![Value::Ref(1), Value::Ref(2), Value::Ref(3)],
        vec![0x01, 0x00, 0x01, 0x01, 0x01, 0x02, 0x50, 0x09, 0x02, 0xFF],
        0,
    );
    vm.grant_capability(9);
    assert_eq!(vm.execute(&float_unit), Ok(()));
    assert_eq!(
        vm.drain_state_changes(),
        vec![StateChange::ExternalCallRequest {
            cap_id: 9,
            args: vec![Value::Ref(2), Value::Ref(3)]
        }]
    );
    assert_eq!(stack_of(&mut vm), vec![Value::Ref(1)]);
}

#[test]
fn external_call_with_too_few_values_underflows() {
    let mut vm = VirtualMachine::new(VreConfig::new(), vec![], vec![0x50, 0x09, 0x01], 0);
    vm.grant_capability(9);
    assert_eq!(vm.execute(&float_unit), Err(VreError::StackUnderflow));
}

#[test]
fn stack_overflow_is_trapped() {
    let config = small(1, 256, 256);
    let mut vm =
        VirtualMachine::new(config, vec![num(1.0)], vec![0x01, 0x00, 0x01, 0x00, 0xFF], 0);
    assert_eq!(vm.execute(&float_unit), Err(VreError::StackOverflow));
    assert!(vm.is_halted());
    assert_eq!(vm.stack_size(), 1);
}

#[test]
fn ref_values_are_preserved_across_push() {
    let (vm, res) = run(vec![Value::Ref(123)], vec![0x01, 0x00, 0xFF]);
    assert_eq!(res, Ok(()));
    assert_eq!(vm.peek_top(), Ok(Value::Ref(123)));
}

#[test]
fn empty_instruction_stream_is_a_no_op() {
    let (mut vm, res) = run(vec![], vec![]);
    assert_eq!(res, Ok(()));
    assert!(!vm.is_halted());
    assert_eq!(vm.ip(), 0);
    assert_eq!(vm.stack_size(), 0);
    assert!(vm.drain_state_changes().is_empty());
}

#[test]
fn single_halt_halts_at_once() {
    let (vm, res) = run(vec![], vec![0xFF, 0x02]);
    assert_eq!(res, Ok(()));
    assert!(vm.is_halted());
    assert_eq!(vm.ip(), 1);
}

#[test]
fn resume_after_halt_runs_on() {
    let (mut vm, res) = run(vec![Value::Null], vec![0xFF, 0x01, 0x00]);
    assert_eq!(res, Ok(()));
    assert_eq!(vm.stack_size(), 0);
    vm.resume();
    assert_eq!(vm.execute(&float_unit), Ok(()));
    assert!(!vm.is_halted());
    assert_eq!(vm.ip(), 3);
    assert_eq!(vm.peek_top(), Ok(Value::Null));
    assert_eq!(vm.execute(&float_unit), Ok(()));
    assert_eq!(vm.stack_size(), 1);
}

#[test]
fn max_call_depth_is_trapped() {
    // 0: Call 5; 5: Call 10; 10: Halt
    let code = vec![0x42, 0, 0, 0, 5, 0x42, 0, 0, 0, 10, 0xFF];
    let mut vm = VirtualMachine::new(small(16, 4, 2), vec![], code.clone(), 0);
    assert_eq!(vm.execute(&float_unit), Err(VreError::StackOverflow));
    assert_eq!(vm.call_depth(), 2);
    let mut vm = VirtualMachine::new(small(16, 4, 3), vec![], code, 0);
    assert_eq!(vm.execute(&float_unit), Ok(()));
    assert_eq!(vm.call_depth(), 3);
}

#[test]
fn endless_recursion_ends_in_stack_overflow() {
    let mut vm = VirtualMachine::new(VreConfig::new(), vec![], vec![0x42, 0, 0, 0, 0], 0);
    assert_eq!(vm.execute(&float_unit), Err(VreError::StackOverflow));
    assert_eq!(vm.call_depth(), 256);
}

#[test]
fn return_from_root_frame_is_a_fault() {
    let (vm, res) = run(vec![], vec![0x43]);
    assert_eq!(res, Err(VreError::RuntimeFault));
    assert!(vm.is_halted());
    assert_eq!(vm.call_depth(), 1);
}

#[test]
fn call_and_return_use_fresh_locals() {
    // 0: Push 0; 2: StoreLocal 0; 4: Call 12; 9: LoadLocal 0; 11: Halt
    // 12: LoadLocal 0; 14: Return
    let code = vec![
        0x01, 0x00, 0x11, 0x00, 0x42, 0, 0, 0, 12, 0x10, 0x00, 0xFF, 0x10, 0x00, 0x43,
    ];
    let (mut vm, res) = run(vec![Value::Ref(5)], code);
    assert_eq!(res, Ok(()));
    assert_eq!(vm.call_depth(), 1);
    assert_eq!(stack_of(&mut vm), vec![Value::Null, Value::Ref(5)]);
}

#[test]
fn call_target_out_of_bounds_is_rejected() {
    let (_, res) = run(vec![], vec![0x42, 0, 0, 0, 5]);
    assert_eq!(res, Err(VreError::InvalidJumpTarget(5)));
    let (_, res) = run(vec![], vec![0x40, 0, 0, 0, 6]);
    assert_eq!(res, Err(VreError::InvalidJumpTarget(6)));
    let (vm, res) = run(vec![], vec![0x40, 0, 0, 0, 5]);
    assert_eq!(res, Ok(()));
    assert_eq!(vm.ip(), 5);
    assert!(!vm.is_halted());
}

#[test]
fn division_by_zero_is_trapped() {
    for op in [0x23u8, 0x24] {
        for zero in [0.0f64, -0.0] {
            let (_, res) = run(vec![num(1.0), num(zero)], vec![0x01, 0x00, 0x01, 0x01, op]);
            assert_eq!(res, Err(VreError::DivisionByZero));
        }
    }
    // the divisor is looked at before the dividend
    let (_, res) = run(vec![num(0.0)], vec![0x01, 0x00, 0x23]);
    assert_eq!(res, Err(VreError::DivisionByZero));
    let (_, res) = run(vec![num(2.0)], vec![0x01, 0x00, 0x23]);
    assert_eq!(res, Err(VreError::StackUnderflow));
}

#[test]
fn arithmetic_goes_through_the_numeric_unit() {
    let cases = [
        (0x20u8, 7.5f64, 2.0f64, 9.5f64),
        (0x21, 7.5, 2.0, 5.5),
        (0x22, 7.5, 2.0, 15.0),
        (0x23, 7.5, 2.0, 3.75),
        (0x24, 7.5, 2.0, 1.5),
    ];
    for (op, a, b, expected) in cases {
        let (vm, res) = run(vec![num(a), num(b)], vec![0x01, 0x00, 0x01, 0x01, op]);
        assert_eq!(res, Ok(()));
        assert_eq!(vm.peek_top(), Ok(num(expected)));
        assert_eq!(vm.stack_size(), 1);
    }
}

#[test]
fn arithmetic_on_other_values_is_a_type_mismatch() {
    let (_, res) = run(vec![num(1.0), Value::Bool(true)], vec![0x01, 0x00, 0x01, 0x01, 0x20]);
    assert_eq!(res, Err(VreError::TypeMismatch));
    let (_, res) = run(vec![Value::Null, num(1.0)], vec![0x01, 0x00, 0x01, 0x01, 0x22]);
    assert_eq!(res, Err(VreError::TypeMismatch));
    let (_, res) = run(vec![num(1.0)], vec![0x01, 0x00, 0x20]);
    assert_eq!(res, Err(VreError::StackUnderflow));
    let (_, res) = run(vec![Value::Ref(1)], vec![0x01, 0x00, 0x25]);
    assert_eq!(res, Err(VreError::TypeMismatch));
    let (_, res) = run(vec![], vec![0x25]);
    assert_eq!(res, Err(VreError::StackUnderflow));
    let (_, res) = run(vec![Value::Null, Value::Null], vec![0x01, 0x00, 0x01, 0x01, 0x30]);
    assert_eq!(res, Err(VreError::TypeMismatch));
}

#[test]
fn negation_flips_the_sign() {
    let (vm, res) = run(vec![num(2.5)], vec![0x01, 0x00, 0x25]);
    assert_eq!(res, Ok(()));
    assert_eq!(vm.peek_top(), Ok(num(-2.5)));
    for x in [0.0f64, -0.0, 1.0, -1.0, f64::INFINITY, f64::MIN_POSITIVE, f64::MAX] {
        assert_eq!(negate(x.to_bits()), (-x).to_bits());
    }
}

#[test]
fn comparisons_agree_with_the_numbers() {
    let values = [
        0.0f64,
        -0.0,
        1.0,
        -1.0,
        2.5,
        -2.5,
        f64::MIN_POSITIVE,
        -f64::MIN_POSITIVE,
        5e-324,
        f64::MAX,
        f64::MIN,
        f64::INFINITY,
        f64::NEG_INFINITY,
        f64::NAN,
    ];
    for a in values {
        assert_eq!(is_nan(a.to_bits()), a.is_nan());
        assert_eq!(is_zero(a.to_bits()), a == 0.0);
        for b in values {
            let (x, y) = (a.to_bits(), b.to_bits());
            assert_eq!(compare(CompareOp::Equal, x, y), a == b);
            assert_eq!(compare(CompareOp::NotEqual, x, y), a != b);
            assert_eq!(compare(CompareOp::Less, x, y), a < b);
            assert_eq!(compare(CompareOp::LessEqual, x, y), a <= b);
            assert_eq!(compare(CompareOp::Greater, x, y), a > b);
            assert_eq!(compare(CompareOp::GreaterEqual, x, y), a >= b);
        }
    }
}

#[test]
fn comparison_pushes_a_bool() {
    let cases = [
        (0x30u8, 1.0f64, 1.0f64, true),
        (0x31, 1.0, 1.0, false),
        (0x32, 1.0, 2.0, true),
        (0x33, 2.0, 2.0, true),
        (0x34, 1.0, 2.0, false),
        (0x35, 3.0, 2.0, true),
    ];
    for (op, a, b, expected) in cases {
        let (mut vm, res) = run(vec![num(a), num(b)], vec![0x01, 0x00, 0x01, 0x01, op]);
        assert_eq!(res, Ok(()));
        assert_eq!(stack_of(&mut vm), vec![Value::Bool(expected)]);
    }
}

#[test]
fn jump_if_takes_the_branch_on_true_only() {
    // 0: Push c; 2: JumpIf 8; 7: Halt; 8: Push 1; 10: Halt
    let code = vec![0x01, 0x00, 0x41, 0, 0, 0, 8, 0xFF, 0x01, 0x01, 0xFF];
    let (mut vm, res) = run(vec![Value::Bool(true), Value::Ref(1)], code.clone());
    assert_eq!(res, Ok(()));
    assert_eq!(vm.ip(), 11);
    assert_eq!(stack_of(&mut vm), vec![Value::Ref(1)]);
    let (mut vm, res) = run(vec![Value::Bool(false), Value::Ref(1)], code.clone());
    assert_eq!(res, Ok(()));
    assert_eq!(vm.ip(), 8);
    assert!(stack_of(&mut vm).is_empty());
    let (_, res) = run(vec![num(1.0), Value::Ref(1)], code);
    assert_eq!(res, Err(VreError::TypeMismatch));
    let (_, res) = run(vec![], vec![0x41, 0, 0, 0, 0]);
    assert_eq!(res, Err(VreError::StackUnderflow));
}

#[test]
fn stack_instructions() {
    let (mut vm, res) = run(vec![Value::Ref(1)], vec![0x01, 0x00, 0x03, 0x03, 0x02, 0xF0]);
    assert_eq!(res, Ok(()));
    assert_eq!(stack_of(&mut vm), vec![Value::Ref(1), Value::Ref(1)]);
    let (_, res) = run(vec![], vec![0x02]);
    assert_eq!(res, Err(VreError::StackUnderflow));
    let (_, res) = run(vec![], vec![0x03]);
    assert_eq!(res, Err(VreError::StackUnderflow));
    let (_, res) = run(vec![], vec![0x01, 0x00]);
    assert_eq!(res, Err(VreError::InvalidConstantAccess(0)));
}

#[test]
fn local_access_is_bounded() {
    let mut vm = VirtualMachine::new(small(8, 2, 8), vec![Value::Null], vec![0x10, 0x02], 0);
    assert_eq!(vm.execute(&float_unit), Err(VreError::InvalidLocalAccess(2)));
    let mut vm =
        VirtualMachine::new(small(8, 2, 8), vec![Value::Null], vec![0x01, 0x00, 0x11, 0x02], 0);
    assert_eq!(vm.execute(&float_unit), Err(VreError::InvalidLocalAccess(2)));
    let mut vm = VirtualMachine::new(small(8, 2, 8), vec![], vec![0x11, 0x00], 0);
    assert_eq!(vm.execute(&float_unit), Err(VreError::StackUnderflow));
    let mut vm = VirtualMachine::new(small(8, 2, 8), vec![], vec![0x10, 0x01], 0);
    assert_eq!(vm.execute(&float_unit), Ok(()));
    assert_eq!(vm.peek_top(), Ok(Value::Null));
}

#[test]
fn unknown_opcode_and_truncated_instruction_fault() {
    let (vm, res) = run(vec![], vec![0xF0, 0x99]);
    assert_eq!(res, Err(VreError::InvalidOpcode(0x99)));
    assert!(vm.is_halted());
    assert_eq!(vm.ip(), 1);
    let (_, res) = run(vec![], vec![0x01]);
    assert_eq!(res, Err(VreError::BytecodeTooShort));
    let (_, res) = run(vec![], vec![0x40, 0, 0]);
    assert_eq!(res, Err(VreError::BytecodeTooShort));
}

#[test]
fn fault_keeps_the_recorded_events() {
    // Push 0; StoreLocal 0; Pop
    let (mut vm, res) = run(vec![Value::Ref(4)], vec![0x01, 0x00, 0x11, 0x00, 0x02]);
    assert_eq!(res, Err(VreError::StackUnderflow));
    assert!(vm.is_halted());
    assert_eq!(
        vm.drain_state_changes(),
        vec![StateChange::LocalStore { index: 0, value: Value::Ref(4) }]
    );
}

#[test]
fn second_drain_is_empty() {
    let (mut vm, _) = run(vec![Value::Ref(4)], vec![0x01, 0x00, 0x11, 0x00]);
    assert_eq!(vm.drain_state_changes().len(), 1);
    assert!(vm.drain_state_changes().is_empty());
}

#[test]
fn events_come_in_program_order() {
    // Push 0; StoreLocal 1; Push 1; StoreLocal 0; ExternalCall 3 0
    let code = vec![0x01, 0x00, 0x11, 0x01, 0x01, 0x01, 0x11, 0x00, 0x50, 0x03, 0x00];
    let mut vm = VirtualMachine::new(VreConfig::new(), vec![Value::Ref(1), Value::Ref(2)], code, 0);
    vm.grant_capability(3);
    assert_eq!(vm.execute(&float_unit), Ok(()));
    assert_eq!(
        vm.drain_state_changes(),
        vec![
            StateChange::LocalStore { index: 1, value: Value::Ref(1) },
            StateChange::LocalStore { index: 0, value: Value::Ref(2) },
            StateChange::ExternalCallRequest { cap_id: 3, args: vec![] },
        ]
    );
}

#[test]
fn bounded_run_stops_after_its_steps() {
    // 0: Nop is no loop; use Jump 0
    let mut vm = VirtualMachine::new(VreConfig::new(), vec![], vec![0x40, 0, 0, 0, 0], 0);
    assert_eq!(vm.execute_bounded(&float_unit, 1000), Ok(()));
    assert!(!vm.is_halted());
    assert_eq!(vm.ip(), 0);
    let mut vm = VirtualMachine::new(VreConfig::new(), vec![], vec![0xF0, 0xF0, 0xF0], 0);
    assert_eq!(vm.execute_bounded(&float_unit, 2), Ok(()));
    assert_eq!(vm.ip(), 2);
    assert_eq!(vm.execute_bounded(&float_unit, 0), Ok(()));
    assert_eq!(vm.ip(), 2);
}

#[test]
fn single_steps_ask_the_unit_only_for_arithmetic() {
    let mut vm =
        VirtualMachine::new(VreConfig::new(), vec![num(1.0), num(2.0)], vec![0x01, 0, 0x01, 1, 0x20], 0);
    assert_eq!(vm.arith_request(), None);
    assert_eq!(vm.step_with(99), Ok(()));
    assert_eq!(vm.step(&float_unit), Ok(()));
    assert_eq!(vm.arith_request(), Some((ArithOp::Add, 1.0f64.to_bits(), 2.0f64.to_bits())));
    assert_eq!(vm.step_with(99), Ok(()));
    assert_eq!(vm.peek_top(), Ok(Value::Number(99)));
}

#[test]
fn apply_external_results_pushes_in_order() {
    let mut vm = VirtualMachine::new(small(3, 1, 1), vec![], vec![], 0);
    assert_eq!(vm.apply_external_results(vec![Value::Ref(1), Value::Ref(2)]), Ok(()));
    assert_eq!(vm.peek_top(), Ok(Value::Ref(2)));
    assert_eq!(
        vm.apply_external_results(vec![Value::Ref(3), Value::Ref(4)]),
        Err(VreError::StackOverflow)
    );
    assert_eq!(stack_of(&mut vm), vec![Value::Ref(1), Value::Ref(2)]);
    assert_eq!(vm.pop_top(), Err(VreError::StackUnderflow));
    assert_eq!(vm.peek_top(), Err(VreError::StackUnderflow));
}

#[test]
fn handoff_without_request_is_a_misuse() {
    fn handler(_cap: u8, _args: &[Value]) -> VreResult<Vec<Value>> {
        panic!("no request, no call");
    }
    let (mut vm, _) = run(vec![Value::Ref(4)], vec![0x01, 0x00, 0x11, 0x00, 0xFF]);
    assert_eq!(consume_external_call(&mut vm, handler), Err(VreError::RuntimeFault));
    assert!(vm.is_halted());
    assert!(vm.drain_state_changes().is_empty());
}

#[test]
fn handoff_passes_the_first_request_and_skips_local_stores() {
    fn handler(cap: u8, args: &[Value]) -> VreResult<Vec<Value>> {
        assert_eq!(cap, 3);
        assert_eq!(args, [Value::Ref(2)]);
        Ok(vec![Value::Bool(true), Value::Null])
    }
    // Push 0; StoreLocal 0; Push 1; ExternalCall 3 1; Halt
    let code = vec![0x01, 0x00, 0x11, 0x00, 0x01, 0x01, 0x50, 0x03, 0x01, 0xFF];
    let mut vm = VirtualMachine::new(VreConfig::new(), vec![Value::Ref(1), Value::Ref(2)], code, 0);
    vm.grant_capability(3);
    assert_eq!(vm.execute(&float_unit), Ok(()));
    assert_eq!(consume_external_call(&mut vm, handler), Ok(()));
    assert!(!vm.is_halted());
    assert_eq!(stack_of(&mut vm), vec![Value::Bool(true), Value::Null]);
}

#[test]
fn handoff_returns_the_error_of_the_host() {
    fn handler(_cap: u8, _args: &[Value]) -> VreResult<Vec<Value>> {
        Err(VreError::SecurityViolation)
    }
    let mut vm = VirtualMachine::new(VreConfig::new(), vec![], vec![0x50, 0x03, 0x00], 0);
    vm.grant_capability(3);
    assert_eq!(vm.execute(&float_unit), Ok(()));
    assert_eq!(consume_external_call(&mut vm, handler), Err(VreError::SecurityViolation));
    assert!(vm.is_halted());
}

#[test]
fn first_request_is_found_among_events() {
    let events = vec![
        StateChange::LocalStore { index: 0, value: Value::Null },
        StateChange::ExternalCallRequest { cap_id: 1, args: vec![Value::Ref(1)] },
        StateChange::ExternalCallRequest { cap_id: 2, args: vec![] },
    ];
    assert_eq!(first_external_request(events), Some((1, vec![Value::Ref(1)])));
    assert_eq!(first_external_request(vec![]), None);
    let mut vm = VirtualMachine::new(small(1, 1, 1), vec![], vec![], 0);
    assert_eq!(
        complete_external_call(&mut vm, Ok(vec![Value::Null, Value::Null])),
        Err(VreError::StackOverflow)
    );
    assert_eq!(complete_external_call(&mut vm, Ok(vec![Value::Null])), Ok(()));
    assert_eq!(vm.stack_size(), 1);
}

#[test]
fn machine_from_bundle_starts_at_the_entry_point() {
    let bundle = LoadedBytecode {
        constants: vec![Value::Ref(1)],
        instructions: vec![0x02, 0x01, 0x00, 0xFF],
        entry_point: 1,
        caps: vec![],
    };
    let mut vm = VirtualMachine::from_bundle(VreConfig::new(), bundle, 0).expect("entry in range");
    assert_eq!(vm.ip(), 1);
    assert_eq!(vm.execute(&float_unit), Ok(()));
    assert_eq!(vm.peek_top(), Ok(Value::Ref(1)));
    let bundle = LoadedBytecode {
        constants: vec![],
        instructions: vec![0xFF],
        entry_point: 2,
        caps: vec![],
    };
    match VirtualMachine::from_bundle(VreConfig::new(), bundle, 0) {
        Ok(_) => panic!("entry point behind the end was accepted"),
        Err(e) => assert_eq!(e, VreError::InvalidJumpTarget(2)),
    }
}

#[test]
fn stack_is_bounded() {
    let mut s = Stack::new(2);
    assert!(s.is_empty());
    assert_eq!(s.pop(), Err(VreError::StackUnderflow));
    assert_eq!(s.peek(), Err(VreError::StackUnderflow));
    assert_eq!(s.dup(), Err(VreError::StackUnderflow));
    assert_eq!(s.push(Value::Ref(1)), Ok(()));
    assert_eq!(s.dup(), Ok(()));
    assert_eq!(s.size(), 2);
    assert_eq!(s.push(Value::Ref(2)), Err(VreError::StackOverflow));
    assert_eq!(s.dup(), Err(VreError::StackOverflow));
    assert_eq!(s.peek(), Ok(Value::Ref(1)));
    assert_eq!(s.peek_at(1), Some(Value::Ref(1)));
    assert_eq!(s.peek_at(2), None);
    assert_eq!(s.pop(), Ok(Value::Ref(1)));
    assert_eq!(s.push_all(vec![Value::Null, Value::Null]), Err(VreError::StackOverflow));
    assert_eq!(s.push_all(vec![Value::Null]), Ok(()));
    assert_eq!(s.take_top(2), vec![Value::Ref(1), Value::Null]);
    assert_eq!(s.size(), 0);
    assert_eq!(s.push(Value::Null), Ok(()));
    s.clear();
    assert!(s.is_empty());
}

#[test]
fn memory_is_bounded() {
    let mut g = Globals::new(2);
    assert_eq!(g.load(0), Ok(Value::Null));
    assert_eq!(g.load(2), Err(VreError::InvalidStackAccess));
    assert_eq!(g.store(1, Value::Ref(9)), Ok(()));
    assert_eq!(g.load(1), Ok(Value::Ref(9)));
    assert_eq!(g.store(2, Value::Null), Err(VreError::InvalidStackAccess));
    let mut l = Locals::new(1);
    assert_eq!(l.load(0), Ok(Value::Null));
    assert_eq!(l.load(1), Err(VreError::InvalidLocalAccess(1)));
    assert_eq!(l.store(0, Value::Bool(true)), Ok(()));
    assert_eq!(l.load(0), Ok(Value::Bool(true)));
    assert_eq!(l.store(1, Value::Null), Err(VreError::InvalidLocalAccess(1)));
    let c = ConstantPool::new(vec![Value::Ref(3)]);
    assert_eq!(c.get(0), Ok(Value::Ref(3)));
    assert_eq!(c.get(1), Err(VreError::InvalidConstantAccess(1)));
}

#[test]
fn suspended_machine_executes_nothing() {
    let mut vm = VirtualMachine::new(VreConfig::new(), vec![Value::Null], vec![0x50, 1, 0, 0x01, 0], 0);
    vm.grant_capability(1);
    assert_eq!(vm.execute(&float_unit), Ok(()));
    assert!(vm.is_halted());
    assert_eq!(vm.ip(), 3);
    assert_eq!(vm.execute(&float_unit), Ok(()));
    assert_eq!(vm.ip(), 3);
    assert_eq!(vm.stack_size(), 0);
    assert_eq!(vm.drain_state_changes().len(), 1);
}

#[test]
fn accepted_programs_run_without_underflow() {
    let programs: [&[u8]; 5] = [
        // Call 7; Pop; Halt; callee: Push 0; Return
        &[0x42, 0x00, 0x00, 0x00, 0x07, 0x02, 0xFF, 0x01, 0x00, 0x43],
        // Push 0; Push 0; JumpIf 9; Push 0; Pop; Pop; Halt (the condition is no bool)
        &[0x01, 0x00, 0x01, 0x00, 0x41, 0x00, 0x00, 0x00, 0x09, 0x01, 0x00, 0x02, 0x02, 0xFF],
        // callees that call each other
        &[
            0x42, 0x00, 0x00, 0x00, 0x06, 0xFF, 0x01, 0x00, 0x02, 0x42, 0x00, 0x00, 0x00, 0x0F,
            0x43, 0x01, 0x00, 0x02, 0x42, 0x00, 0x00, 0x00, 0x06, 0x43,
        ],
        // Push 0; Dup; Add; Neg; StoreLocal 0; LoadLocal 0; Pop
        &[0x01, 0x00, 0x03, 0x20, 0x25, 0x11, 0x00, 0x10, 0x00, 0x02],
        // Push 0; Jump 0
        &[0x01, 0x00, 0x40, 0x00, 0x00, 0x00, 0x00],
    ];
    for code in programs {
        let mut file = vec![0x56, 0x59, 0x4D, 0x41, 1, 0, 0, 0, 0, 0, 0, 0, 0, 0, 0, 1, 0x02];
        file.extend(&1.5f64.to_be_bytes());
        file.extend(&(code.len() as u32).to_be_bytes());
        file.extend(code);
        let bundle = vre_core::BytecodeLoader::load(&file).expect("accepted");
        let mut vm =
            VirtualMachine::from_bundle(small(64, 4, 64), bundle, 0).expect("entry in range");
        let res = vm.execute_bounded(&float_unit, 100_000);
        assert_ne!(res, Err(VreError::StackUnderflow));
        assert!(vm.stack_size() <= 64);
        assert!(vm.call_depth() >= 1 && vm.call_depth() <= 64);
    }
}

#[test]
fn code_behind_a_nop_is_not_analysed() {
    // Nop; Pop
    let code = [0xF0u8, 0x02];
    let mut file = vec![0x56, 0x59, 0x4D, 0x41, 1, 0, 0, 0, 0, 0, 0, 0, 0, 0, 0, 0];
    file.extend(&(code.len() as u32).to_be_bytes());
    file.extend(&code);
    let bundle = vre_core::BytecodeLoader::load(&file).expect("accepted");
    let mut vm = VirtualMachine::from_bundle(VreConfig::new(), bundle, 0).expect("entry in range");
    assert_eq!(vm.execute(&float_unit), Err(VreError::StackUnderflow));
}
