//! The machine: dispatch, instruction semantics, call and return, suspension
//! at external calls, and the record of observable events.

use vstd::prelude::*;
use crate::bytecode::opcode::OpCode;
use crate::capability::capability::CapabilityId;
use crate::capability::registry::CapabilityRegistry;
use crate::config::VreConfig;
use crate::error::{VreError, VreResult};
use crate::loader::decode::u32_be_at;
use crate::loader::loader::LoadedBytecode;
use super::memory::{ConstantPool, Globals, Locals};
use super::number::{compare, is_zero, negate, ArithOp, CompareOp};
use super::stack::Stack;
use super::state::{
    lemma_step_keeps_bounds, spec_arith_request, spec_drained, spec_exec_arith, spec_exec_compare, spec_running,
    spec_step, spec_wf, ChangeView, FrameView, Program, VmState,
};
use super::value::Value;

verus! {

/// One function invocation: where to go on after it, and its locals.
#[derive(Debug)]
pub struct CallFrame {
    return_ip: usize,
    locals: Locals,
}

/// An event that the host can observe.
#[derive(Debug, Clone, PartialEq)]
pub enum StateChange {
    /// A local slot was written; `value` is what it holds now.
    LocalStore { index: usize, value: Value },
    /// The program asked for an external call, and the capability was granted.
    ExternalCallRequest { cap_id: u8, args: Vec<Value> },
}

impl StateChange {
    /// The event as a mathematical value.
    pub open spec fn view(&self) -> ChangeView {
        match *self {
            StateChange::LocalStore { index, value } => ChangeView::LocalStore { index, value },
            StateChange::ExternalCallRequest { cap_id, args } => ChangeView::ExternalCallRequest {
                cap_id,
                args: args@,
            },
        }
    }
}

/// The events of `changes` as mathematical values.
pub open spec fn spec_changes(changes: Seq<StateChange>) -> Seq<ChangeView> {
    Seq::new(changes.len(), |i: int| changes[i]@)
}

/// Whether one step leads from `s` to `t` with result `res`, the numeric
/// unit `alu` having answered where the step asked it.
pub open spec fn spec_linked<F: Fn(ArithOp, u64, u64) -> u64>(
    p: Program,
    alu: F,
    s: VmState,
    t: VmState,
    res: Result<(), VreError>,
) -> bool {
    match spec_arith_request(p, s) {
        Some((op, x, y)) => exists|r: u64|
            alu.ensures((op, x, y), r) && #[trigger] spec_step(p, s, r) == (t, res),
        None => spec_step(p, s, 0) == (t, res),
    }
}

/// Whether `trace` is a run of successful steps: each state but the last is
/// running and leads to the next.
pub open spec fn spec_trace<F: Fn(ArithOp, u64, u64) -> u64>(
    p: Program,
    alu: F,
    trace: Seq<VmState>,
) -> bool {
    &&& trace.len() >= 1
    &&& forall|k: int|
        0 <= k < trace.len() - 1 ==> spec_running(p, #[trigger] trace[k]) && spec_linked(
            p,
            alu,
            trace[k],
            trace[k + 1],
            Ok(()),
        )
}

/// Whether a run from `start` of at most `max_steps` steps ends in `end` with
/// result `res`. A successful run ends where the machine no longer runs or
/// the steps are used up; a failed run ends with the step that faulted.
pub open spec fn spec_run<F: Fn(ArithOp, u64, u64) -> u64>(
    p: Program,
    alu: F,
    start: VmState,
    max_steps: u64,
    end: VmState,
    res: Result<(), VreError>,
) -> bool {
    exists|trace: Seq<VmState>|
        {
            &&& #[trigger] spec_trace(p, alu, trace)
            &&& trace[0] == start
            &&& trace.len() - 1 <= max_steps
            &&& match res {
                Ok(_) => trace.last() == end && (!spec_running(p, end) || trace.len() - 1
                    == max_steps),
                Err(_) => trace.len() - 1 < max_steps && spec_running(p, trace.last())
                    && spec_linked(p, alu, trace.last(), end, res),
            }
        }
}

/// A machine that is halted, suspended or at the end of its code executes
/// nothing: a run from such a state succeeds and ends in that state.
pub proof fn lemma_stopped_machine_stays<F: Fn(ArithOp, u64, u64) -> u64>(
    p: Program,
    alu: F,
    start: VmState,
    max_steps: u64,
    end: VmState,
    res: Result<(), VreError>,
)
    requires
        !spec_running(p, start),
        spec_run(p, alu, start, max_steps, end, res),
    ensures
        res is Ok,
        end == start,
{
    let trace = choose|trace: Seq<VmState>|
        {
            &&& #[trigger] spec_trace(p, alu, trace)
            &&& trace[0] == start
            &&& trace.len() - 1 <= max_steps
            &&& match res {
                Ok(_) => trace.last() == end && (!spec_running(p, end) || trace.len() - 1
                    == max_steps),
                Err(_) => trace.len() - 1 < max_steps && spec_running(p, trace.last())
                    && spec_linked(p, alu, trace.last(), end, res),
            }
        };
    if trace.len() > 1 {
        assert(spec_running(p, trace[0]));
    }
}

/// The virtual machine.
#[derive(Debug)]
pub struct VirtualMachine {
    config: VreConfig,
    stack: Stack,
    globals: Globals,
    constants: ConstantPool,
    instructions: Vec<u8>,
    ip: usize,
    call_stack: Vec<CallFrame>,
    halted: bool,
    changes: Vec<StateChange>,
    registry: CapabilityRegistry,
}

impl VirtualMachine {
    /// The state of the machine.
    pub closed spec fn view(&self) -> VmState {
        VmState {
            stack: self.stack@,
            frames: Seq::new(
                self.call_stack@.len(),
                |i: int|
                    FrameView {
                        return_ip: self.call_stack@[i].return_ip,
                        locals: self.call_stack@[i].locals@,
                    },
            ),
            ip: self.ip,
            halted: self.halted,
            changes: spec_changes(self.changes@),
            granted: self.registry@,
        }
    }

    /// The program and the limits that the machine was made with.
    pub closed spec fn program(&self) -> Program {
        Program {
            constants: self.constants@,
            code: self.instructions@,
            max_stack_size: self.config.max_stack_size,
            max_locals: self.config.max_locals,
            max_call_depth: self.config.max_call_depth,
        }
    }

    /// The global slots.
    pub closed spec fn globals(&self) -> Seq<Value> {
        self.globals@
    }

    /// The parts of the machine agree with each other.
    pub closed spec fn inv(&self) -> bool {
        self.stack.wf() && self.stack.limit() == self.config.max_stack_size
    }

    /// The machine is sound: its parts agree, and its state is within the
    /// bounds of its program.
    pub open spec fn wf(&self) -> bool {
        self.inv() && spec_wf(self.program(), self@)
    }

    /// A machine for the given program. It starts at offset zero with an
    /// empty stack, a root frame of null locals, no event and no capability.
    pub fn new(
        config: VreConfig,
        constants: Vec<Value>,
        instructions: Vec<u8>,
        global_count: usize,
    ) -> (vm: VirtualMachine)
        ensures
            vm.wf(),
            vm.program() == (Program {
                constants: constants@,
                code: instructions@,
                max_stack_size: config.max_stack_size,
                max_locals: config.max_locals,
                max_call_depth: config.max_call_depth,
            }),
            vm@ == (VmState {
                stack: Seq::empty(),
                frames: seq![
                    FrameView {
                        return_ip: 0,
                        locals: Seq::new(config.max_locals as nat, |i: int| Value::Null),
                    },
                ],
                ip: 0,
                halted: false,
                changes: Seq::empty(),
                granted: Set::empty(),
            }),
            vm.globals() == Seq::new(global_count as nat, |i: int| Value::Null),
    {
        let mut call_stack: Vec<CallFrame> = Vec::new();
        call_stack.push(CallFrame { return_ip: 0, locals: Locals::new(config.max_locals) });
        let vm = VirtualMachine {
            stack: Stack::new(config.max_stack_size),
            globals: Globals::new(global_count),
            constants: ConstantPool::new(constants),
            instructions,
            ip: 0,
            call_stack,
            halted: false,
            changes: Vec::new(),
            registry: CapabilityRegistry::new(),
            config,
        };
        assert(vm@.frames =~~= seq![
            FrameView {
                return_ip: 0,
                locals: Seq::new(config.max_locals as nat, |i: int| Value::Null),
            },
        ]);
        assert(vm@.changes =~= Seq::empty());
        vm
    }

    /// A machine for a loaded bundle, which starts at the bundle's entry
    /// point. An entry point behind the end of the instructions is refused.
    pub fn from_bundle(config: VreConfig, bundle: LoadedBytecode, global_count: usize) -> (res:
        VreResult<VirtualMachine>)
        ensures
            bundle.entry_point > bundle.instructions@.len() ==> res is Err && res.unwrap_err()
                == VreError::InvalidJumpTarget(bundle.entry_point),
            bundle.entry_point <= bundle.instructions@.len() ==> res is Ok && res.unwrap().wf()
                && res.unwrap().program() == (Program {
                constants: bundle.constants@,
                code: bundle.instructions@,
                max_stack_size: config.max_stack_size,
                max_locals: config.max_locals,
                max_call_depth: config.max_call_depth,
            }) && res.unwrap()@ == (VmState {
                stack: Seq::empty(),
                frames: seq![
                    FrameView {
                        return_ip: 0,
                        locals: Seq::new(config.max_locals as nat, |i: int| Value::Null),
                    },
                ],
                ip: bundle.entry_point,
                halted: false,
                changes: Seq::empty(),
                granted: Set::empty(),
            }) && res.unwrap().globals() == Seq::new(global_count as nat, |i: int| Value::Null),
    {
        let entry = bundle.entry_point;
        if entry > bundle.instructions.len() {
            return Err(VreError::InvalidJumpTarget(entry));
        }
        let mut vm = Self::new(config, bundle.constants, bundle.instructions, global_count);
        vm.ip = entry;
        Ok(vm)
    }

    /// Whether the machine is halted or suspended.
    pub fn is_halted(&self) -> (b: bool)
        ensures
            b == self@.halted,
    {
        self.halted
    }

    /// The offset of the next instruction.
    pub fn ip(&self) -> (ip: usize)
        ensures
            ip == self@.ip,
    {
        self.ip
    }

    /// The depth of the operand stack.
    pub fn stack_size(&self) -> (n: usize)
        ensures
            n == self@.stack.len(),
    {
        self.stack.size()
    }

    /// The number of call frames, the root frame included.
    pub fn call_depth(&self) -> (n: usize)
        ensures
            n == self@.frames.len(),
    {
        self.call_stack.len()
    }

    /// Grants capability `id`.
    pub fn grant_capability(&mut self, id: u8)
        ensures
            final(self)@ == (VmState { granted: old(self)@.granted.insert(id), ..old(self)@ }),
            final(self).program() == old(self).program(),
            final(self).globals() == old(self).globals(),
            old(self).wf() ==> final(self).wf(),
    {
        self.registry.grant(CapabilityId(id));
    }

    /// Takes capability `id` back.
    pub fn revoke_capability(&mut self, id: u8)
        ensures
            final(self)@ == (VmState { granted: old(self)@.granted.remove(id), ..old(self)@ }),
            final(self).program() == old(self).program(),
            final(self).globals() == old(self).globals(),
            old(self).wf() ==> final(self).wf(),
    {
        self.registry.revoke(&CapabilityId(id));
    }

    /// Hands the recorded events to the host, in the order in which they were
    /// recorded, and leaves none behind.
    pub fn drain_state_changes(&mut self) -> (events: Vec<StateChange>)
        ensures
            spec_changes(events@) == old(self)@.changes,
            final(self)@ == spec_drained(old(self)@),
            final(self).program() == old(self).program(),
            final(self).globals() == old(self).globals(),
            old(self).wf() ==> final(self).wf(),
    {
        let mut events: Vec<StateChange> = Vec::new();
        core::mem::swap(&mut self.changes, &mut events);
        assert(self@.changes =~= Seq::empty());
        events
    }

    /// Pushes the results of an external call, the last of them topmost.
    /// Where they do not all fit, nothing is pushed and an overflow is
    /// reported.
    pub fn apply_external_results(&mut self, results: Vec<Value>) -> (res: VreResult<()>)
        requires
            old(self).wf(),
        ensures
            final(self).wf(),
            final(self).program() == old(self).program(),
            final(self).globals() == old(self).globals(),
            old(self)@.stack.len() + results@.len() <= old(self).program().max_stack_size ==> res
                == Ok::<(), VreError>(()) && final(self)@ == (VmState {
                stack: old(self)@.stack + results@,
                ..old(self)@
            }),
            old(self)@.stack.len() + results@.len() > old(self).program().max_stack_size ==> res
                == Err::<(), VreError>(VreError::StackOverflow) && final(self)@ == old(self)@,
    {
        self.stack.push_all(results)
    }

    /// Lets a halted or suspended machine run again.
    pub fn resume(&mut self)
        ensures
            final(self)@ == (VmState { halted: false, ..old(self)@ }),
            final(self).program() == old(self).program(),
            final(self).globals() == old(self).globals(),
            old(self).wf() ==> final(self).wf(),
    {
        self.halted = false;
    }

    /// The value on top of the stack.
    pub fn peek_top(&self) -> (res: VreResult<Value>)
        ensures
            self@.stack.len() > 0 ==> res == Ok::<Value, VreError>(self@.stack.last()),
            self@.stack.len() == 0 ==> res == Err::<Value, VreError>(VreError::StackUnderflow),
    {
        self.stack.peek()
    }

    /// Takes the value on top of the stack off.
    pub fn pop_top(&mut self) -> (res: VreResult<Value>)
        requires
            old(self).wf(),
        ensures
            final(self).wf(),
            final(self).program() == old(self).program(),
            final(self).globals() == old(self).globals(),
            old(self)@.stack.len() > 0 ==> res == Ok::<Value, VreError>(old(self)@.stack.last())
                && final(self)@ == (VmState {
                stack: old(self)@.stack.drop_last(),
                ..old(self)@
            }),
            old(self)@.stack.len() == 0 ==> res == Err::<Value, VreError>(
                VreError::StackUnderflow,
            ) && final(self)@ == old(self)@,
    {
        self.stack.pop()
    }

    /// Halts the machine on a fault.
    fn fail(&mut self, e: VreError) -> (res: VreResult<()>)
        ensures
            final(self)@ == (VmState { halted: true, ..old(self)@ }),
            final(self).program() == old(self).program(),
            final(self).globals() == old(self).globals(),
            final(self).inv() == old(self).inv(),
            res == Err::<(), VreError>(e),
    {
        self.halted = true;
        Err(e)
    }

    /// Replaces the two topmost values, which the caller has checked to be
    /// there, by `v`.
    fn replace_two(&mut self, v: Value, next: usize)
        requires
            old(self).inv(),
            old(self)@.stack.len() >= 2,
        ensures
            final(self)@ == (VmState {
                stack: super::state::spec_replace_two(old(self)@.stack, v),
                ip: next,
                ..old(self)@
            }),
            final(self).program() == old(self).program(),
            final(self).globals() == old(self).globals(),
            final(self).inv(),
    {
        let _ = self.stack.take_top(2);
        let _ = self.stack.push(v);
        self.ip = next;
    }

    /// An arithmetic instruction, given the answer `r` of the numeric unit.
    fn exec_arith(&mut self, op: ArithOp, next: usize, r: u64) -> (res: VreResult<()>)
        requires
            old(self).inv(),
        ensures
            (final(self)@, res) == spec_exec_arith(old(self)@, op, next, r),
            final(self).program() == old(self).program(),
            final(self).globals() == old(self).globals(),
            final(self).inv(),
    {
        let checks_divisor = match op {
            ArithOp::Div | ArithOp::Mod => true,
            _ => false,
        };
        let top = self.stack.peek_at(0);
        let below = self.stack.peek_at(1);
        match top {
            None => self.fail(VreError::StackUnderflow),
            Some(Value::Number(y)) => {
                if checks_divisor && is_zero(y) {
                    return self.fail(VreError::DivisionByZero);
                }
                match below {
                    None => self.fail(VreError::StackUnderflow),
                    Some(Value::Number(x)) => {
                        self.replace_two(Value::Number(r), next);
                        Ok(())
                    },
                    Some(_) => self.fail(VreError::TypeMismatch),
                }
            },
            Some(_) => {
                if below.is_none() && !checks_divisor {
                    self.fail(VreError::StackUnderflow)
                } else {
                    self.fail(VreError::TypeMismatch)
                }
            },
        }
    }

    /// A comparison of the two topmost values.
    fn exec_compare(&mut self, op: CompareOp, next: usize) -> (res: VreResult<()>)
        requires
            old(self).inv(),
        ensures
            (final(self)@, res) == spec_exec_compare(old(self)@, op, next),
            final(self).program() == old(self).program(),
            final(self).globals() == old(self).globals(),
            final(self).inv(),
    {
        let top = self.stack.peek_at(0);
        let below = self.stack.peek_at(1);
        match (below, top) {
            (Some(Value::Number(x)), Some(Value::Number(y))) => {
                self.replace_two(Value::Bool(compare(op, x, y)), next);
                Ok(())
            },
            (Some(_), Some(_)) => self.fail(VreError::TypeMismatch),
            _ => self.fail(VreError::StackUnderflow),
        }
    }

    /// The question that the next step puts to the numeric unit, if any.
    pub fn arith_request(&self) -> (req: Option<(ArithOp, u64, u64)>)
        requires
            self.wf(),
            spec_running(self.program(), self@),
        ensures
            req == spec_arith_request(self.program(), self@),
    {
        let op = match OpCode::from_u8(self.instructions[self.ip]) {
            Some(OpCode::Add) => ArithOp::Add,
            Some(OpCode::Sub) => ArithOp::Sub,
            Some(OpCode::Mul) => ArithOp::Mul,
            Some(OpCode::Div) => ArithOp::Div,
            Some(OpCode::Mod) => ArithOp::Mod,
            _ => {
                return None;
            },
        };
        let divides = match op {
            ArithOp::Div | ArithOp::Mod => true,
            _ => false,
        };
        match (self.stack.peek_at(1), self.stack.peek_at(0)) {
            (Some(Value::Number(x)), Some(Value::Number(y))) => {
                if divides && is_zero(y) {
                    None
                } else {
                    Some((op, x, y))
                }
            },
            _ => None,
        }
    }

    /// Executes one instruction. `r` is the answer of the numeric unit to the
    /// question of `arith_request`; other instructions do not look at it.
    ///
    /// On a fault the machine halts, and nothing else of it changes.
    pub fn step_with(&mut self, r: u64) -> (res: VreResult<()>)
        requires
            old(self).wf(),
            spec_running(old(self).program(), old(self)@),
        ensures
            final(self).wf(),
            final(self).program() == old(self).program(),
            final(self).globals() == old(self).globals(),
            (final(self)@, res) == spec_step(old(self).program(), old(self)@, r),
    {
        proof {
            lemma_step_keeps_bounds(self.program(), self@, r);
        }
        let ip = self.ip;
        let byte = self.instructions[ip];
        let op = match OpCode::from_u8(byte) {
            Some(op) => op,
            None => {
                return self.fail(VreError::InvalidOpcode(byte));
            },
        };
        let imm = op.imm_len();
        if imm > self.instructions.len() - ip - 1 {
            return self.fail(VreError::BytecodeTooShort);
        }
        let next = ip + 1 + imm;
        let a: u8 = if imm >= 1 {
            self.instructions[ip + 1]
        } else {
            0
        };
        let b: u8 = if imm >= 2 {
            self.instructions[ip + 2]
        } else {
            0
        };
        let t: usize = if imm == 4 {
            u32_be_at(self.instructions.as_slice(), ip + 1) as usize
        } else {
            0
        };
        match op {
            OpCode::Push => {
                let v = match self.constants.get(a as usize) {
                    Ok(v) => v,
                    Err(_) => {
                        return self.fail(VreError::InvalidConstantAccess(a as usize));
                    },
                };
                match self.stack.push(v) {
                    Ok(_) => {
                        self.ip = next;
                        Ok(())
                    },
                    Err(_) => self.fail(VreError::StackOverflow),
                }
            },
            OpCode::Pop => {
                match self.stack.pop() {
                    Ok(_) => {
                        self.ip = next;
                        Ok(())
                    },
                    Err(_) => self.fail(VreError::StackUnderflow),
                }
            },
            OpCode::Dup => {
                match self.stack.dup() {
                    Ok(_) => {
                        self.ip = next;
                        Ok(())
                    },
                    Err(e) => self.fail(e),
                }
            },
            OpCode::LoadLocal => {
                let depth = self.call_stack.len();
                let v = match self.call_stack[depth - 1].locals.load(a as usize) {
                    Ok(v) => v,
                    Err(_) => {
                        return self.fail(VreError::InvalidLocalAccess(a as usize));
                    },
                };
                match self.stack.push(v) {
                    Ok(_) => {
                        self.ip = next;
                        Ok(())
                    },
                    Err(_) => self.fail(VreError::StackOverflow),
                }
            },
            OpCode::StoreLocal => {
                if self.stack.is_empty() {
                    return self.fail(VreError::StackUnderflow);
                }
                if a as usize >= self.config.max_locals {
                    assert(self@.frames.last().locals.len() == self.config.max_locals);
                    return self.fail(VreError::InvalidLocalAccess(a as usize));
                }
                let ghost before = self@;
                assert(before.frames.last().locals.len() == self.config.max_locals);
                let v = match self.stack.pop() {
                    Ok(v) => v,
                    Err(_) => Value::Null,
                };
                let mut frame = match self.call_stack.pop() {
                    Some(f) => f,
                    None => CallFrame { return_ip: 0, locals: Locals::new(0) },
                };
                let _ = frame.locals.store(a as usize, v);
                self.call_stack.push(frame);
                self.changes.push(StateChange::LocalStore { index: a as usize, value: v });
                self.ip = next;
                assert(self@.frames =~~= before.frames.drop_last().push(
                    FrameView {
                        return_ip: before.frames.last().return_ip,
                        locals: before.frames.last().locals.update(a as int, v),
                    },
                ));
                assert(self@.changes =~= before.changes.push(
                    ChangeView::LocalStore { index: a as usize, value: v },
                ));
                Ok(())
            },
            OpCode::Add => self.exec_arith(ArithOp::Add, next, r),
            OpCode::Sub => self.exec_arith(ArithOp::Sub, next, r),
            OpCode::Mul => self.exec_arith(ArithOp::Mul, next, r),
            OpCode::Div => self.exec_arith(ArithOp::Div, next, r),
            OpCode::Mod => self.exec_arith(ArithOp::Mod, next, r),
            OpCode::Neg => {
                match self.stack.peek_at(0) {
                    None => self.fail(VreError::StackUnderflow),
                    Some(Value::Number(x)) => {
                        let _ = self.stack.pop();
                        let _ = self.stack.push(Value::Number(negate(x)));
                        self.ip = next;
                        Ok(())
                    },
                    Some(_) => self.fail(VreError::TypeMismatch),
                }
            },
            OpCode::Equal => self.exec_compare(CompareOp::Equal, next),
            OpCode::NotEqual => self.exec_compare(CompareOp::NotEqual, next),
            OpCode::Less => self.exec_compare(CompareOp::Less, next),
            OpCode::LessEqual => self.exec_compare(CompareOp::LessEqual, next),
            OpCode::Greater => self.exec_compare(CompareOp::Greater, next),
            OpCode::GreaterEqual => self.exec_compare(CompareOp::GreaterEqual, next),
            OpCode::Jump => {
                if t > self.instructions.len() {
                    return self.fail(VreError::InvalidJumpTarget(t));
                }
                self.ip = t;
                Ok(())
            },
            OpCode::JumpIf => {
                match self.stack.peek_at(0) {
                    None => self.fail(VreError::StackUnderflow),
                    Some(Value::Bool(c)) => {
                        if !c {
                            let _ = self.stack.pop();
                            self.ip = next;
                            Ok(())
                        } else if t > self.instructions.len() {
                            self.fail(VreError::InvalidJumpTarget(t))
                        } else {
                            let _ = self.stack.pop();
                            self.ip = t;
                            Ok(())
                        }
                    },
                    Some(_) => self.fail(VreError::TypeMismatch),
                }
            },
            OpCode::Call => {
                if self.call_stack.len() >= self.config.max_call_depth {
                    return self.fail(VreError::StackOverflow);
                }
                if t >= self.instructions.len() {
                    return self.fail(VreError::InvalidJumpTarget(t));
                }
                let ghost before = self@;
                self.call_stack.push(
                    CallFrame { return_ip: next, locals: Locals::new(self.config.max_locals) },
                );
                self.ip = t;
                assert(self@.frames =~~= before.frames.push(
                    FrameView {
                        return_ip: next,
                        locals: Seq::new(self.config.max_locals as nat, |i: int| Value::Null),
                    },
                ));
                Ok(())
            },
            OpCode::Return => {
                if self.call_stack.len() <= 1 {
                    return self.fail(VreError::RuntimeFault);
                }
                let ghost before = self@;
                let frame = match self.call_stack.pop() {
                    Some(f) => f,
                    None => CallFrame { return_ip: 0, locals: Locals::new(0) },
                };
                self.ip = frame.return_ip;
                assert(self@.frames =~~= before.frames.drop_last());
                Ok(())
            },
            OpCode::ExternalCall => {
                if self.stack.size() < b as usize {
                    return self.fail(VreError::StackUnderflow);
                }
                if !self.registry.is_granted(a) {
                    return self.fail(VreError::CapabilityDenied);
                }
                let ghost before = self@;
                let args = self.stack.take_top(b as usize);
                self.changes.push(StateChange::ExternalCallRequest { cap_id: a, args });
                self.halted = true;
                self.ip = next;
                assert(self@.changes =~= before.changes.push(
                    ChangeView::ExternalCallRequest {
                        cap_id: a,
                        args: before.stack.subrange(
                            before.stack.len() - b,
                            before.stack.len() as int,
                        ),
                    },
                ));
                Ok(())
            },
            OpCode::Nop => {
                self.ip = next;
                Ok(())
            },
            OpCode::Halt => {
                self.halted = true;
                self.ip = next;
                Ok(())
            },
        }
    }

    /// Executes one instruction, asking the numeric unit `alu` where the
    /// instruction is arithmetic on two numbers.
    pub fn step<F: Fn(ArithOp, u64, u64) -> u64>(&mut self, alu: &F) -> (res: VreResult<()>)
        requires
            old(self).wf(),
            spec_running(old(self).program(), old(self)@),
            forall|op: ArithOp, x: u64, y: u64| alu.requires((op, x, y)),
        ensures
            final(self).wf(),
            final(self).program() == old(self).program(),
            final(self).globals() == old(self).globals(),
            spec_linked(old(self).program(), *alu, old(self)@, final(self)@, res),
    {
        match self.arith_request() {
            Some((op, x, y)) => {
                let r = alu(op, x, y);
                self.step_with(r)
            },
            None => self.step_with(0),
        }
    }

    /// Runs until the machine halts, suspends at an external call, reaches
    /// the end of the code or faults, but for `max_steps` instructions at
    /// most. A machine that does not run returns at once.
    ///
    /// A fault is returned as the error; it leaves the machine halted, with
    /// the events that were recorded before it.
    pub fn execute_bounded<F: Fn(ArithOp, u64, u64) -> u64>(&mut self, alu: &F, max_steps: u64) -> (res:
        VreResult<()>)
        requires
            old(self).wf(),
            forall|op: ArithOp, x: u64, y: u64| alu.requires((op, x, y)),
        ensures
            final(self).wf(),
            final(self).program() == old(self).program(),
            final(self).globals() == old(self).globals(),
            spec_run(old(self).program(), *alu, old(self)@, max_steps, final(self)@, res),
    {
        let ghost p = self.program();
        let ghost start = self@;
        let ghost mut trace: Seq<VmState> = seq![self@];
        let mut steps: u64 = 0;
        while steps < max_steps && !self.halted && self.ip < self.instructions.len()
            invariant
                self.wf(),
                self.program() == p,
                self.globals() == old(self).globals(),
                p == old(self).program(),
                start == old(self)@,
                forall|op: ArithOp, x: u64, y: u64| alu.requires((op, x, y)),
                spec_trace(p, *alu, trace),
                trace[0] == start,
                trace.last() == self@,
                trace.len() - 1 == steps,
                steps <= max_steps,
            decreases max_steps - steps,
        {
            let ghost before = self@;
            let ghost old_trace = trace;
            match self.step(alu) {
                Ok(_) => {
                    proof {
                        trace = old_trace.push(self@);
                        assert forall|k: int| 0 <= k < trace.len() - 1 implies spec_running(
                            p,
                            #[trigger] trace[k],
                        ) && spec_linked(p, *alu, trace[k], trace[k + 1], Ok(())) by {
                            if k < old_trace.len() - 1 {
                                assert(trace[k] == old_trace[k]);
                                assert(trace[k + 1] == old_trace[k + 1]);
                            } else {
                                assert(trace[k] == before);
                            }
                        }
                    }
                    steps = steps + 1;
                },
                Err(e) => {
                    assert(spec_trace(p, *alu, trace));
                    return Err(e);
                },
            }
        }
        assert(spec_trace(p, *alu, trace));
        Ok(())
    }

    /// Runs until the machine halts, suspends at an external call, reaches
    /// the end of the code or faults. One call executes no more instructions
    /// than the largest 64-bit number; a machine that still runs then can be
    /// executed again.
    pub fn execute<F: Fn(ArithOp, u64, u64) -> u64>(&mut self, alu: &F) -> (res: VreResult<()>)
        requires
            old(self).wf(),
            forall|op: ArithOp, x: u64, y: u64| alu.requires((op, x, y)),
        ensures
            final(self).wf(),
            final(self).program() == old(self).program(),
            final(self).globals() == old(self).globals(),
            spec_run(
                old(self).program(),
                *alu,
                old(self)@,
                0xFFFF_FFFF_FFFF_FFFF,
                final(self)@,
                res,
            ),
    {
        self.execute_bounded(alu, u64::MAX)
    }
}

} // verus!
