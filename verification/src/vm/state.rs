//! The machine as a mathematical state, and what one instruction does to it.

use vstd::prelude::*;
use crate::bytecode::opcode::OpCode;
use crate::error::VreError;
use crate::loader::format::spec_u32_be;
use super::number::{spec_compare, spec_is_zero, spec_negate, ArithOp, CompareOp};
use super::value::Value;

verus! {

/// One call frame.
pub struct FrameView {
    /// Where execution goes on after the return.
    pub return_ip: usize,
    pub locals: Seq<Value>,
}

/// One recorded event.
pub enum ChangeView {
    /// A local slot was written; `value` is what it holds now.
    LocalStore { index: usize, value: Value },
    /// The program asked for an external call, and the capability was granted.
    ExternalCallRequest { cap_id: u8, args: Seq<Value> },
}

/// Everything about a machine that changes while it runs.
pub struct VmState {
    /// The operand stack, bottom first.
    pub stack: Seq<Value>,
    /// The call frames, root first.
    pub frames: Seq<FrameView>,
    pub ip: usize,
    pub halted: bool,
    /// The events recorded since the host last took them.
    pub changes: Seq<ChangeView>,
    /// The capabilities that are granted.
    pub granted: Set<u8>,
}

/// Everything about a machine that is fixed when it is made.
pub struct Program {
    pub constants: Seq<Value>,
    pub code: Seq<u8>,
    pub max_stack_size: usize,
    pub max_locals: usize,
    pub max_call_depth: usize,
}

/// The bounds that hold of every state of a machine: the stack is no deeper
/// than its limit, there is a root frame and no more frames than the limit
/// allows, and the instruction pointer and every return address lie within
/// the code or at its end.
pub open spec fn spec_wf(p: Program, s: VmState) -> bool {
    &&& s.stack.len() <= p.max_stack_size
    &&& s.frames.len() >= 1
    &&& (s.frames.len() <= p.max_call_depth || s.frames.len() == 1)
    &&& s.ip <= p.code.len()
    &&& forall|i: int|
        0 <= i < s.frames.len() ==> (#[trigger] s.frames[i]).locals.len() == p.max_locals
            && s.frames[i].return_ip <= p.code.len()
}

/// Whether the machine would execute an instruction.
pub open spec fn spec_running(p: Program, s: VmState) -> bool {
    !s.halted && s.ip < p.code.len()
}

/// The state after a fault: halted, and otherwise as before the instruction.
pub open spec fn spec_fail(s: VmState, e: VreError) -> (VmState, Result<(), VreError>) {
    (VmState { halted: true, ..s }, Err(e))
}

/// The state with its events taken away.
pub open spec fn spec_drained(s: VmState) -> VmState {
    VmState { changes: Seq::empty(), ..s }
}

/// Taking the events away leaves none: taking them a second time, with no
/// step in between, finds nothing and changes nothing.
pub proof fn lemma_drain_twice(s: VmState)
    ensures
        spec_drained(s).changes == Seq::<ChangeView>::empty(),
        spec_drained(spec_drained(s)) == spec_drained(s),
{
}

/// The arithmetic operation of an opcode, if it is one.
pub open spec fn spec_arith_of(op: OpCode) -> Option<ArithOp> {
    match op {
        OpCode::Add => Some(ArithOp::Add),
        OpCode::Sub => Some(ArithOp::Sub),
        OpCode::Mul => Some(ArithOp::Mul),
        OpCode::Div => Some(ArithOp::Div),
        OpCode::Mod => Some(ArithOp::Mod),
        _ => None,
    }
}

/// The comparison of an opcode, if it is one.
pub open spec fn spec_compare_of(op: OpCode) -> Option<CompareOp> {
    match op {
        OpCode::Equal => Some(CompareOp::Equal),
        OpCode::NotEqual => Some(CompareOp::NotEqual),
        OpCode::Less => Some(CompareOp::Less),
        OpCode::LessEqual => Some(CompareOp::LessEqual),
        OpCode::Greater => Some(CompareOp::Greater),
        OpCode::GreaterEqual => Some(CompareOp::GreaterEqual),
        _ => None,
    }
}

/// The operand stack with its two topmost values replaced by `v`.
pub open spec fn spec_replace_two(stack: Seq<Value>, v: Value) -> Seq<Value> {
    stack.subrange(0, stack.len() - 2).push(v)
}

/// What an arithmetic instruction does, given the result `r` of the numeric
/// unit. Division and remainder look at the divisor before the dividend.
pub open spec fn spec_exec_arith(s: VmState, op: ArithOp, next: usize, r: u64) -> (
    VmState,
    Result<(), VreError>,
) {
    let n = s.stack.len() as int;
    let checks_divisor = op == ArithOp::Div || op == ArithOp::Mod;
    if n < 1 || (n < 2 && !checks_divisor) {
        spec_fail(s, VreError::StackUnderflow)
    } else {
        match s.stack[n - 1] {
            Value::Number(y) => {
                if checks_divisor && spec_is_zero(y) {
                    spec_fail(s, VreError::DivisionByZero)
                } else if n < 2 {
                    spec_fail(s, VreError::StackUnderflow)
                } else {
                    match s.stack[n - 2] {
                        Value::Number(x) => (
                            VmState {
                                stack: spec_replace_two(s.stack, Value::Number(r)),
                                ip: next,
                                ..s
                            },
                            Ok(()),
                        ),
                        _ => spec_fail(s, VreError::TypeMismatch),
                    }
                }
            },
            _ => spec_fail(s, VreError::TypeMismatch),
        }
    }
}

/// What a comparison does: both operands must be numbers.
pub open spec fn spec_exec_compare(s: VmState, op: CompareOp, next: usize) -> (
    VmState,
    Result<(), VreError>,
) {
    let n = s.stack.len() as int;
    if n < 2 {
        spec_fail(s, VreError::StackUnderflow)
    } else {
        match (s.stack[n - 2], s.stack[n - 1]) {
            (Value::Number(x), Value::Number(y)) => (
                VmState {
                    stack: spec_replace_two(s.stack, Value::Bool(spec_compare(op, x, y))),
                    ip: next,
                    ..s
                },
                Ok(()),
            ),
            _ => spec_fail(s, VreError::TypeMismatch),
        }
    }
}

/// What the instruction with opcode `op` at the instruction pointer does.
/// `next` is the offset behind its immediates, `a` and `b` are its first two
/// immediate bytes and `t` its target; `r` is the result of the numeric
/// unit, used by arithmetic alone.
pub open spec fn spec_exec(
    p: Program,
    s: VmState,
    op: OpCode,
    next: usize,
    a: u8,
    b: u8,
    t: usize,
    r: u64,
) -> (VmState, Result<(), VreError>) {
    let n = s.stack.len() as int;
    let top_frame = s.frames.last();
    match op {
        OpCode::Push => {
            if a >= p.constants.len() {
                spec_fail(s, VreError::InvalidConstantAccess(a as usize))
            } else if n >= p.max_stack_size {
                spec_fail(s, VreError::StackOverflow)
            } else {
                (VmState { stack: s.stack.push(p.constants[a as int]), ip: next, ..s }, Ok(()))
            }
        },
        OpCode::Pop => {
            if n == 0 {
                spec_fail(s, VreError::StackUnderflow)
            } else {
                (VmState { stack: s.stack.drop_last(), ip: next, ..s }, Ok(()))
            }
        },
        OpCode::Dup => {
            if n == 0 {
                spec_fail(s, VreError::StackUnderflow)
            } else if n >= p.max_stack_size {
                spec_fail(s, VreError::StackOverflow)
            } else {
                (VmState { stack: s.stack.push(s.stack.last()), ip: next, ..s }, Ok(()))
            }
        },
        OpCode::LoadLocal => {
            if a >= top_frame.locals.len() {
                spec_fail(s, VreError::InvalidLocalAccess(a as usize))
            } else if n >= p.max_stack_size {
                spec_fail(s, VreError::StackOverflow)
            } else {
                (VmState { stack: s.stack.push(top_frame.locals[a as int]), ip: next, ..s }, Ok(()))
            }
        },
        OpCode::StoreLocal => {
            if n == 0 {
                spec_fail(s, VreError::StackUnderflow)
            } else if a >= top_frame.locals.len() {
                spec_fail(s, VreError::InvalidLocalAccess(a as usize))
            } else {
                (
                    VmState {
                        stack: s.stack.drop_last(),
                        frames: s.frames.drop_last().push(
                            FrameView {
                                return_ip: top_frame.return_ip,
                                locals: top_frame.locals.update(a as int, s.stack.last()),
                            },
                        ),
                        changes: s.changes.push(
                            ChangeView::LocalStore { index: a as usize, value: s.stack.last() },
                        ),
                        ip: next,
                        ..s
                    },
                    Ok(()),
                )
            }
        },
        OpCode::Add => spec_exec_arith(s, ArithOp::Add, next, r),
        OpCode::Sub => spec_exec_arith(s, ArithOp::Sub, next, r),
        OpCode::Mul => spec_exec_arith(s, ArithOp::Mul, next, r),
        OpCode::Div => spec_exec_arith(s, ArithOp::Div, next, r),
        OpCode::Mod => spec_exec_arith(s, ArithOp::Mod, next, r),
        OpCode::Neg => {
            if n == 0 {
                spec_fail(s, VreError::StackUnderflow)
            } else {
                match s.stack.last() {
                    Value::Number(x) => (
                        VmState {
                            stack: s.stack.drop_last().push(Value::Number(spec_negate(x))),
                            ip: next,
                            ..s
                        },
                        Ok(()),
                    ),
                    _ => spec_fail(s, VreError::TypeMismatch),
                }
            }
        },
        OpCode::Equal => spec_exec_compare(s, CompareOp::Equal, next),
        OpCode::NotEqual => spec_exec_compare(s, CompareOp::NotEqual, next),
        OpCode::Less => spec_exec_compare(s, CompareOp::Less, next),
        OpCode::LessEqual => spec_exec_compare(s, CompareOp::LessEqual, next),
        OpCode::Greater => spec_exec_compare(s, CompareOp::Greater, next),
        OpCode::GreaterEqual => spec_exec_compare(s, CompareOp::GreaterEqual, next),
        OpCode::Jump => {
            if t > p.code.len() {
                spec_fail(s, VreError::InvalidJumpTarget(t))
            } else {
                (VmState { ip: t, ..s }, Ok(()))
            }
        },
        OpCode::JumpIf => {
            if n == 0 {
                spec_fail(s, VreError::StackUnderflow)
            } else {
                match s.stack.last() {
                    Value::Bool(c) => {
                        if !c {
                            (VmState { stack: s.stack.drop_last(), ip: next, ..s }, Ok(()))
                        } else if t > p.code.len() {
                            spec_fail(s, VreError::InvalidJumpTarget(t))
                        } else {
                            (VmState { stack: s.stack.drop_last(), ip: t, ..s }, Ok(()))
                        }
                    },
                    _ => spec_fail(s, VreError::TypeMismatch),
                }
            }
        },
        OpCode::Call => {
            if s.frames.len() >= p.max_call_depth {
                spec_fail(s, VreError::StackOverflow)
            } else if t >= p.code.len() {
                spec_fail(s, VreError::InvalidJumpTarget(t))
            } else {
                (
                    VmState {
                        frames: s.frames.push(
                            FrameView {
                                return_ip: next,
                                locals: Seq::new(p.max_locals as nat, |i: int| Value::Null),
                            },
                        ),
                        ip: t,
                        ..s
                    },
                    Ok(()),
                )
            }
        },
        OpCode::Return => {
            if s.frames.len() <= 1 {
                spec_fail(s, VreError::RuntimeFault)
            } else {
                (VmState { frames: s.frames.drop_last(), ip: top_frame.return_ip, ..s }, Ok(()))
            }
        },
        OpCode::ExternalCall => {
            if n < b {
                spec_fail(s, VreError::StackUnderflow)
            } else if !s.granted.contains(a) {
                spec_fail(s, VreError::CapabilityDenied)
            } else {
                (
                    VmState {
                        stack: s.stack.subrange(0, n - b),
                        changes: s.changes.push(
                            ChangeView::ExternalCallRequest {
                                cap_id: a,
                                args: s.stack.subrange(n - b, n),
                            },
                        ),
                        halted: true,
                        ip: next,
                        ..s
                    },
                    Ok(()),
                )
            }
        },
        OpCode::Nop => (VmState { ip: next, ..s }, Ok(())),
        OpCode::Halt => (VmState { halted: true, ip: next, ..s }, Ok(())),
    }
}

/// What one step of a running machine does: the state behind it and whether
/// it faulted. An unknown opcode byte and an instruction that runs past the
/// end of the code are faults.
pub open spec fn spec_step(p: Program, s: VmState, r: u64) -> (VmState, Result<(), VreError>) {
    let ip = s.ip as int;
    match OpCode::spec_from_u8(p.code[ip]) {
        None => spec_fail(s, VreError::InvalidOpcode(p.code[ip])),
        Some(op) => {
            if ip + 1 + op.spec_imm_len() > p.code.len() {
                spec_fail(s, VreError::BytecodeTooShort)
            } else {
                spec_exec(
                    p,
                    s,
                    op,
                    (ip + 1 + op.spec_imm_len()) as usize,
                    p.code[ip + 1],
                    p.code[ip + 2],
                    spec_u32_be(p.code, ip + 1) as usize,
                    r,
                )
            }
        },
    }
}

/// The question that the next step puts to the numeric unit, if any: the
/// operation and its two operands, the lower one on the stack first. There
/// is one exactly when the next instruction is arithmetic, complete, finds
/// two numbers on top of the stack, and does not divide by zero.
pub open spec fn spec_arith_request(p: Program, s: VmState) -> Option<(ArithOp, u64, u64)> {
    let ip = s.ip as int;
    let n = s.stack.len() as int;
    match OpCode::spec_from_u8(p.code[ip]) {
        None => None,
        Some(op) => match spec_arith_of(op) {
            None => None,
            Some(aop) => if n < 2 {
                None
            } else {
                match (s.stack[n - 2], s.stack[n - 1]) {
                    (Value::Number(x), Value::Number(y)) => {
                        if (aop == ArithOp::Div || aop == ArithOp::Mod) && spec_is_zero(y) {
                            None
                        } else {
                            Some((aop, x, y))
                        }
                    },
                    _ => None,
                }
            },
        },
    }
}

/// Where the next step puts no question to the numeric unit, it does not
/// depend on what the unit would answer.
pub proof fn lemma_step_without_request(p: Program, s: VmState, r1: u64, r2: u64)
    requires
        spec_arith_request(p, s) is None,
    ensures
        spec_step(p, s, r1) == spec_step(p, s, r2),
{
}

/// A step keeps the bounds of the machine.
pub proof fn lemma_step_keeps_bounds(p: Program, s: VmState, r: u64)
    requires
        spec_wf(p, s),
        spec_running(p, s),
    ensures
        spec_wf(p, spec_step(p, s, r).0),
{
    let t = spec_step(p, s, r).0;
    assert forall|i: int| 0 <= i < t.frames.len() implies (#[trigger] t.frames[i]).locals.len()
        == p.max_locals && t.frames[i].return_ip <= p.code.len() by {
        if i < s.frames.len() - 1 {
            assert(t.frames[i] == s.frames[i]);
        } else if i < s.frames.len() {
            assert(s.frames[i].locals.len() == p.max_locals);
        }
    }
}

/// A step that faults leaves the machine halted and changes nothing else; in
/// particular the recorded events stay.
pub proof fn lemma_fault_halts(p: Program, s: VmState, r: u64)
    requires
        spec_step(p, s, r).1 is Err,
    ensures
        spec_step(p, s, r).0 == (VmState { halted: true, ..s }),
{
}

/// A step never removes a recorded event, and it records a request for an
/// external call only where the capability is granted.
pub proof fn lemma_step_extends_changes(p: Program, s: VmState, r: u64)
    ensures
        s.changes.is_prefix_of(spec_step(p, s, r).0.changes),
        forall|k: int|
            s.changes.len() <= k < spec_step(p, s, r).0.changes.len() ==> match #[trigger] spec_step(
                p,
                s,
                r,
            ).0.changes[k] {
                ChangeView::ExternalCallRequest { cap_id, args } => s.granted.contains(cap_id),
                ChangeView::LocalStore { .. } => true,
            },
{
}

/// A step that leaves the machine running records at most a write to a
/// local, and a step of `Halt` records nothing.
pub proof fn lemma_step_records(p: Program, s: VmState, r: u64)
    requires
        spec_step(p, s, r).1 is Ok,
        s.frames.len() >= 1,
    ensures
        !spec_step(p, s, r).0.halted || p.code[s.ip as int] == 0xFF ==> spec_step(
            p,
            s,
            r,
        ).0.changes == s.changes || (spec_step(p, s, r).0.changes.len() == s.changes.len() + 1
            && spec_step(p, s, r).0.changes.drop_last() == s.changes && spec_step(
            p,
            s,
            r,
        ).0.changes.last() is LocalStore),
        p.code[s.ip as int] == 0xFF ==> spec_step(p, s, r).0.changes == s.changes,
{
    let t = spec_step(p, s, r).0;
    if t.changes != s.changes {
        assert(t.changes.drop_last() =~= s.changes);
    }
}

} // verus!
