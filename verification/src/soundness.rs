//! What the validator's acceptance means for a run: no stack underflow.
//!
//! The height that the analysis gives an instruction is a lower bound of the
//! depth of the stack, counted from where the current call frame began,
//! whenever the machine is about to execute the instruction. Callees stand
//! under the analysis that gave them their summary, the code of the root
//! frame under the analysis of the whole program.
//!
//! Two things are outside the bound. The analysis gives `Nop` no successor,
//! though the machine goes on behind it; the lemmas on runs are stated for
//! programs without `Nop`. And the analysis follows no path behind `Halt`;
//! nothing is stated of a machine that the host lets run again after one.

use vstd::prelude::*;
use crate::bytecode::opcode::OpCode;
use crate::error::VreError;
use crate::loader::decode::{
    lemma_decoded_is_laid_out, lemma_resolve_resolves, spec_decode, spec_laid_out, spec_placed,
    spec_is_branch, spec_resolve, spec_resolve_one, spec_resolved, Meta,
};
use crate::loader::flow::{spec_effect, spec_is_cert, spec_settled, Mode};
use crate::loader::summary::{
    lemma_summaries_justified, spec_all_justified, spec_is_call_target, spec_justified,
    spec_reached_return, spec_return_height, spec_summaries, spec_table_below,
};
use crate::loader::validate::{spec_all_summarized, spec_global, spec_validate};
use crate::vm::number::ArithOp;
use crate::vm::state::{
    lemma_step_records, spec_arith_request, spec_running, spec_step, Program, VmState,
};
use crate::vm::value::Value;
use crate::vm::vm::{spec_linked, spec_run, spec_trace};

verus! {

/// The analysis under which the code of one call frame stands.
pub struct Context {
    /// The instruction at which the frame was entered.
    pub entry: int,
    /// The depth of the stack when the frame was entered.
    pub base: int,
    /// The summaries that the analysis used.
    pub used: Seq<Option<usize>>,
    pub mode: Mode,
    /// The heights that the analysis found.
    pub hs: Seq<Option<usize>>,
    /// The call, in the frame below, that made the frame.
    pub site: int,
}

/// Whether the context holds an analysis of the code from its entry that
/// used only summaries of `table`.
pub open spec fn spec_context_ok(nodes: Seq<Meta>, table: Seq<Option<usize>>, c: Context) -> bool {
    &&& 0 <= c.entry < nodes.len()
    &&& c.base >= 0
    &&& spec_table_below(c.used, table)
    &&& spec_is_cert(nodes, c.used, c.mode, c.entry, c.hs)
}

/// Whether frame `k`, which is not the root, fits the frame below it: its
/// callee has a summary that its analysis bears out, the call that made it
/// stands in the frame below at a known height, the frame began no lower
/// than that height, and it returns behind the call.
pub open spec fn spec_callee_ok(
    nodes: Seq<Meta>,
    table: Seq<Option<usize>>,
    s: VmState,
    ctxs: Seq<Context>,
    k: int,
) -> bool {
    &&& table[ctxs[k].entry] is Some
    &&& spec_return_height(nodes, ctxs[k].hs, table[ctxs[k].entry].unwrap())
    &&& 0 <= ctxs[k].site < nodes.len()
    &&& nodes[ctxs[k].site].opcode == OpCode::Call
    &&& nodes[ctxs[k].site].target_index == ctxs[k].entry
    &&& ctxs[k - 1].hs[ctxs[k].site] is Some
    &&& ctxs[k - 1].base + ctxs[k - 1].hs[ctxs[k].site].unwrap() <= ctxs[k].base
    &&& s.frames[k].return_ip == nodes[ctxs[k].site].offset + 5
}

/// Whether every frame of the machine has its context.
pub open spec fn spec_frames_ok(
    nodes: Seq<Meta>,
    table: Seq<Option<usize>>,
    s: VmState,
    ctxs: Seq<Context>,
) -> bool {
    &&& ctxs.len() == s.frames.len()
    &&& ctxs.len() >= 1
    &&& forall|k: int| 0 <= k < ctxs.len() ==> spec_context_ok(nodes, table, #[trigger] ctxs[k])
    &&& forall|k: int| 1 <= k < ctxs.len() ==> #[trigger] spec_callee_ok(nodes, table, s, ctxs, k)
}

/// Whether the machine is about to execute instruction `i` with every frame
/// in its context and with at least the height of `i`, counted from the
/// base of the top frame, on the stack.
pub open spec fn spec_inv(
    nodes: Seq<Meta>,
    table: Seq<Option<usize>>,
    s: VmState,
    ctxs: Seq<Context>,
    i: int,
) -> bool {
    &&& spec_frames_ok(nodes, table, s, ctxs)
    &&& 0 <= i < nodes.len()
    &&& s.ip == nodes[i].offset
    &&& ctxs.last().hs[i] is Some
    &&& ctxs.last().base + ctxs.last().hs[i].unwrap() <= s.stack.len()
}

/// Whether the machine stands, in some contexts, at some instruction with
/// enough on the stack.
pub open spec fn spec_safe(nodes: Seq<Meta>, table: Seq<Option<usize>>, s: VmState) -> bool {
    exists|ctxs: Seq<Context>, i: int| spec_inv(nodes, table, s, ctxs, i)
}

/// Whether the program has no `Nop`.
pub open spec fn spec_without_nop(nodes: Seq<Meta>) -> bool {
    forall|i: int| 0 <= i < nodes.len() ==> (#[trigger] nodes[i]).opcode != OpCode::Nop
}

/// What the lemmas below assume of the program: it lies in the code without
/// gap, its targets are resolved, every callee has a summary, and every
/// summary rests on an analysis.
pub open spec fn spec_analysed(p: Program, metas: Seq<Meta>, table: Seq<Option<usize>>) -> bool {
    &&& p.code.len() <= usize::MAX
    &&& spec_laid_out(p.code, metas, p.code.len() as int)
    &&& spec_resolved(spec_resolve(metas))
    &&& spec_all_justified(spec_resolve(metas), table)
    &&& spec_all_summarized(spec_resolve(metas), table)
}

/// A step that is neither `Call` nor `Return`: it does not underflow, and
/// unless it was a `Nop` or a `Halt` the machine is safe again, if it has not
/// reached the end of the code.
proof fn lemma_plain_step(
    p: Program,
    metas: Seq<Meta>,
    table: Seq<Option<usize>>,
    s: VmState,
    ctxs: Seq<Context>,
    i: int,
    r: u64,
)
    requires
        spec_analysed(p, metas, table),
        spec_inv(spec_resolve(metas), table, s, ctxs, i),
        metas[i].opcode != OpCode::Call,
        metas[i].opcode != OpCode::Return,
    ensures
        spec_step(p, s, r).1 != Err::<(), VreError>(VreError::StackUnderflow),
        spec_step(p, s, r).1 is Ok && metas[i].opcode != OpCode::Nop && metas[i].opcode
            != OpCode::Halt && spec_step(p, s, r).0.ip < p.code.len() ==> spec_safe(
            spec_resolve(metas),
            table,
            spec_step(p, s, r).0,
        ),
{
    let nodes = spec_resolve(metas);
    let end = p.code.len() as int;
    let m = metas[i];
    let t = spec_step(p, s, r).0;
    let top = ctxs.last();
    assert(spec_context_ok(nodes, table, ctxs[ctxs.len() - 1]));
    assert(nodes[i] == spec_resolve_one(metas, i));
    assert(spec_placed(p.code, metas, end, i));
    assert(spec_settled(nodes, top.used, top.mode, top.hs, i));
    if spec_step(p, s, r).1 is Ok && m.opcode != OpCode::Nop && m.opcode != OpCode::Halt && t.ip
        < p.code.len() {
        assert(t.frames.len() == s.frames.len());
        assert forall|k: int| 1 <= k < ctxs.len() implies #[trigger] spec_callee_ok(
            nodes,
            table,
            t,
            ctxs,
            k,
        ) by {
            assert(spec_callee_ok(nodes, table, s, ctxs, k));
            assert(t.frames[k].return_ip == s.frames[k].return_ip);
        }
        assert(spec_frames_ok(nodes, table, t, ctxs));
        let jumps = m.opcode == OpCode::Jump || (m.opcode == OpCode::JumpIf && s.stack.last()
            == Value::Bool(true));
        if jumps {
            let j = nodes[i].target_index as int;
            assert(nodes[j].offset == m.target);
            assert(spec_inv(nodes, table, t, ctxs, j));
        } else {
            let j = i + 1;
            assert(t.ip == m.offset + 1 + m.opcode.spec_imm_len());
            assert(j < metas.len());
            assert(nodes[j] == spec_resolve_one(metas, j));
            assert(spec_inv(nodes, table, t, ctxs, j));
        }
    }
}

/// A `Call`: it does not underflow, and where it succeeds the machine is
/// safe at the entry of the callee, under the analysis that gave the callee
/// its summary.
proof fn lemma_call_step(
    p: Program,
    metas: Seq<Meta>,
    table: Seq<Option<usize>>,
    s: VmState,
    ctxs: Seq<Context>,
    i: int,
    r: u64,
)
    requires
        spec_analysed(p, metas, table),
        spec_inv(spec_resolve(metas), table, s, ctxs, i),
        metas[i].opcode == OpCode::Call,
    ensures
        spec_step(p, s, r).1 != Err::<(), VreError>(VreError::StackUnderflow),
        spec_step(p, s, r).1 is Ok ==> spec_safe(spec_resolve(metas), table, spec_step(p, s, r).0),
{
    let nodes = spec_resolve(metas);
    let end = p.code.len() as int;
    let m = metas[i];
    let t = spec_step(p, s, r).0;
    let top = ctxs.last();
    assert(nodes[i] == spec_resolve_one(metas, i));
    assert(spec_placed(p.code, metas, end, i));
    if spec_step(p, s, r).1 is Ok {
        let callee = nodes[i].target_index as int;
        assert(spec_is_branch(nodes[i].opcode));
        assert(nodes[callee].offset == m.target);
        assert(spec_is_call_target(nodes, callee));
        assert(spec_justified(nodes, table, callee));
        let (used, mode, hs) = choose|
            used: Seq<Option<usize>>,
            mode: Mode,
            hs: Seq<Option<usize>>,
        |
            {
                &&& spec_table_below(used, table)
                &&& !mode.allow_external
                &&& #[trigger] spec_is_cert(nodes, used, mode, callee, hs)
                &&& spec_return_height(nodes, hs, table[callee].unwrap())
            };
        let c = Context { entry: callee, base: s.stack.len() as int, used, mode, hs, site: i };
        let more = ctxs.push(c);
        assert forall|k: int| 0 <= k < more.len() implies spec_context_ok(
            nodes,
            table,
            #[trigger] more[k],
        ) by {
            if k < ctxs.len() {
                assert(spec_context_ok(nodes, table, ctxs[k]));
            }
        }
        assert forall|k: int| 1 <= k < more.len() implies #[trigger] spec_callee_ok(
            nodes,
            table,
            t,
            more,
            k,
        ) by {
            if k < ctxs.len() {
                assert(spec_callee_ok(nodes, table, s, ctxs, k));
                assert(t.frames[k] == s.frames[k]);
                assert(more[k] == ctxs[k]);
                assert(more[k - 1] == ctxs[k - 1]);
            } else {
                assert(more[k - 1] == top);
            }
        }
        assert(spec_frames_ok(nodes, table, t, more));
        assert(spec_inv(nodes, table, t, more, callee));
    }
}

/// A `Return`: it does not underflow, and where it succeeds the machine is
/// safe behind the call that made the frame, if that is not the end of the
/// code.
proof fn lemma_return_step(
    p: Program,
    metas: Seq<Meta>,
    table: Seq<Option<usize>>,
    s: VmState,
    ctxs: Seq<Context>,
    i: int,
    r: u64,
)
    requires
        spec_analysed(p, metas, table),
        spec_inv(spec_resolve(metas), table, s, ctxs, i),
        metas[i].opcode == OpCode::Return,
    ensures
        spec_step(p, s, r).1 != Err::<(), VreError>(VreError::StackUnderflow),
        spec_step(p, s, r).1 is Ok && spec_step(p, s, r).0.ip < p.code.len() ==> spec_safe(
            spec_resolve(metas),
            table,
            spec_step(p, s, r).0,
        ),
{
    let nodes = spec_resolve(metas);
    let end = p.code.len() as int;
    let t = spec_step(p, s, r).0;
    assert(nodes[i] == spec_resolve_one(metas, i));
    assert(spec_placed(p.code, metas, end, i));
    if spec_step(p, s, r).1 is Ok && t.ip < p.code.len() {
        let top = ctxs.len() - 1;
        assert(top >= 1);
        let c = ctxs[top];
        let b = ctxs[top - 1];
        let site = c.site;
        let less = ctxs.drop_last();
        assert(spec_callee_ok(nodes, table, s, ctxs, top));
        assert(spec_context_ok(nodes, table, ctxs[top - 1]));
        assert(spec_reached_return(nodes, c.hs, i));
        assert(c.hs[i] == Some(table[c.entry].unwrap()));
        assert(nodes[site] == spec_resolve_one(metas, site));
        assert(spec_placed(p.code, metas, end, site));
        assert(t.ip == nodes[site].offset + 5);
        let j = site + 1;
        assert(j < metas.len());
        assert(nodes[j] == spec_resolve_one(metas, j));
        assert(spec_settled(nodes, b.used, b.mode, b.hs, site));
        let o = spec_effect(nodes[site], b.hs[site].unwrap(), b.used, b.mode).unwrap();
        assert(o <= b.hs[site].unwrap() + table[c.entry].unwrap()) by {
            if b.used[c.entry] is Some {
                assert(table[c.entry] == b.used[c.entry]);
            }
        }
        assert forall|k: int| 0 <= k < less.len() implies spec_context_ok(
            nodes,
            table,
            #[trigger] less[k],
        ) by {
            assert(spec_context_ok(nodes, table, ctxs[k]));
        }
        assert forall|k: int| 1 <= k < less.len() implies #[trigger] spec_callee_ok(
            nodes,
            table,
            t,
            less,
            k,
        ) by {
            assert(spec_callee_ok(nodes, table, s, ctxs, k));
            assert(t.frames[k] == s.frames[k]);
            assert(less[k] == ctxs[k]);
            assert(less[k - 1] == ctxs[k - 1]);
        }
        assert(spec_frames_ok(nodes, table, t, less));
        assert(less.last() == b);
        assert(spec_inv(nodes, table, t, less, j));
    }
}

/// One step of a safe machine does not underflow. Unless the step was a
/// `Halt`, behind which the analysis follows no path, the machine is safe
/// again where the step succeeds and does not reach the end of the code; so
/// it is when it is suspended at an external call.
pub proof fn lemma_step_sound(
    p: Program,
    metas: Seq<Meta>,
    table: Seq<Option<usize>>,
    s: VmState,
    r: u64,
)
    requires
        spec_analysed(p, metas, table),
        spec_without_nop(metas),
        spec_safe(spec_resolve(metas), table, s),
    ensures
        spec_step(p, s, r).1 != Err::<(), VreError>(VreError::StackUnderflow),
        spec_step(p, s, r).1 is Ok && spec_step(p, s, r).0.ip < p.code.len() && p.code[s.ip as int]
            != 0xFF ==> spec_safe(spec_resolve(metas), table, spec_step(p, s, r).0),
        p.code[s.ip as int] == 0xFF ==> spec_step(p, s, r).0.halted,
{
    let nodes = spec_resolve(metas);
    let (ctxs, i) = choose|ctxs: Seq<Context>, i: int| spec_inv(nodes, table, s, ctxs, i);
    assert(nodes[i] == spec_resolve_one(metas, i));
    assert(spec_placed(p.code, metas, p.code.len() as int, i));
    if metas[i].opcode == OpCode::Call {
        lemma_call_step(p, metas, table, s, ctxs, i, r);
    } else if metas[i].opcode == OpCode::Return {
        lemma_return_step(p, metas, table, s, ctxs, i, r);
    } else {
        lemma_plain_step(p, metas, table, s, ctxs, i, r);
    }
}

/// A safe machine stays safe when the host pushes values and lets it run
/// again.
pub proof fn lemma_safe_after_results(
    nodes: Seq<Meta>,
    table: Seq<Option<usize>>,
    s: VmState,
    values: Seq<Value>,
)
    requires
        spec_safe(nodes, table, s),
    ensures
        spec_safe(nodes, table, VmState { stack: s.stack + values, halted: false, ..s }),
{
    let t = VmState { stack: s.stack + values, halted: false, ..s };
    let (ctxs, i) = choose|ctxs: Seq<Context>, i: int| spec_inv(nodes, table, s, ctxs, i);
    assert forall|k: int| 1 <= k < ctxs.len() implies #[trigger] spec_callee_ok(
        nodes,
        table,
        t,
        ctxs,
        k,
    ) by {
        assert(spec_callee_ok(nodes, table, s, ctxs, k));
    }
    assert(spec_inv(nodes, table, t, ctxs, i));
}

/// A machine at offset zero in the root frame is safe under the analysis of
/// the whole program.
pub proof fn lemma_start_is_safe(
    p: Program,
    metas: Seq<Meta>,
    table: Seq<Option<usize>>,
    hs: Seq<Option<usize>>,
    s: VmState,
)
    requires
        spec_analysed(p, metas, table),
        spec_is_cert(spec_resolve(metas), table, spec_global(), 0, hs),
        s.ip == 0,
        s.frames.len() == 1,
        p.code.len() > 0,
    ensures
        spec_safe(spec_resolve(metas), table, s),
{
    let nodes = spec_resolve(metas);
    assert(metas.len() > 0);
    assert(nodes[0] == spec_resolve_one(metas, 0));
    let root = Context { entry: 0, base: 0, used: table, mode: spec_global(), hs, site: 0 };
    let ctxs = seq![root];
    assert(spec_context_ok(nodes, table, root));
    assert(spec_frames_ok(nodes, table, s, ctxs));
    assert(spec_inv(nodes, table, s, ctxs, 0));
}

/// Along a run of a program without `Nop` from a safe state, every state
/// that runs is safe.
pub proof fn lemma_trace_sound<F: Fn(ArithOp, u64, u64) -> u64>(
    p: Program,
    alu: F,
    metas: Seq<Meta>,
    table: Seq<Option<usize>>,
    trace: Seq<VmState>,
    k: int,
)
    requires
        spec_analysed(p, metas, table),
        spec_without_nop(metas),
        spec_trace(p, alu, trace),
        spec_running(p, trace[0]) ==> spec_safe(spec_resolve(metas), table, trace[0]),
        0 <= k < trace.len(),
    ensures
        spec_running(p, trace[k]) ==> spec_safe(spec_resolve(metas), table, trace[k]),
    decreases k,
{
    if k > 0 {
        lemma_trace_sound(p, alu, metas, table, trace, k - 1);
        let s = trace[k - 1];
        let t = trace[k];
        assert(spec_running(p, s) && spec_linked(p, alu, s, trace[k - 1 + 1], Ok(())));
        let r: u64 = match spec_arith_request(p, s) {
            Some((op, x, y)) => choose|r: u64|
                alu.ensures((op, x, y), r) && #[trigger] spec_step(p, s, r) == (
                    t,
                    Ok::<(), VreError>(()),
                ),
            None => 0,
        };
        assert(spec_step(p, s, r) == (t, Ok::<(), VreError>(())));
        lemma_step_sound(p, metas, table, s, r);
    }
}

/// No run of a program without `Nop` from a safe state ends in a stack
/// underflow, and a run that ends because its steps are used up ends in a
/// safe state.
pub proof fn lemma_safe_run_never_underflows<F: Fn(ArithOp, u64, u64) -> u64>(
    p: Program,
    alu: F,
    metas: Seq<Meta>,
    table: Seq<Option<usize>>,
    start: VmState,
    max_steps: u64,
    end: VmState,
    res: Result<(), VreError>,
)
    requires
        spec_analysed(p, metas, table),
        spec_without_nop(metas),
        spec_running(p, start) ==> spec_safe(spec_resolve(metas), table, start),
        spec_run(p, alu, start, max_steps, end, res),
    ensures
        res != Err::<(), VreError>(VreError::StackUnderflow),
        res is Ok && spec_running(p, end) ==> spec_safe(spec_resolve(metas), table, end),
{
    let trace = choose|trace: Seq<VmState>|
        {
            &&& #[trigger] spec_trace(p, alu, trace)
            &&& trace[0] == start
            &&& trace.len() - 1 <= max_steps
            &&& match res {
                Ok(_) => trace.last() == end && (!spec_running(p, end) || trace.len() - 1
                    == max_steps),
                Err(_) => trace.len() - 1 < max_steps && spec_running(p, trace.last())
                    && spec_linked(p, alu, trace.last(), end, res),
            }
        };
    let s = trace.last();
    lemma_trace_sound(p, alu, metas, table, trace, trace.len() - 1);
    if res is Err {
        let r: u64 = match spec_arith_request(p, s) {
            Some((op, x, y)) => choose|r: u64|
                alu.ensures((op, x, y), r) && #[trigger] spec_step(p, s, r) == (end, res),
            None => 0,
        };
        assert(spec_step(p, s, r) == (end, res));
        lemma_step_sound(p, metas, table, s, r);
    }
}

/// Whether every event of `s` behind the first `count` is a write to a local.
pub open spec fn spec_only_stores(s: VmState, count: int) -> bool {
    &&& count <= s.changes.len()
    &&& forall|x: int| count <= x < s.changes.len() ==> (#[trigger] s.changes[x]) is LocalStore
}

/// Along a run, the states before the last have recorded nothing but writes
/// to locals, and all of them have at least one frame.
proof fn lemma_trace_records<F: Fn(ArithOp, u64, u64) -> u64>(
    p: Program,
    alu: F,
    trace: Seq<VmState>,
    k: int,
)
    requires
        spec_trace(p, alu, trace),
        trace[0].frames.len() >= 1,
        0 <= k < trace.len() - 1,
    ensures
        spec_only_stores(trace[k], trace[0].changes.len() as int),
        trace[k].frames.len() >= 1,
    decreases k,
{
    if k > 0 {
        lemma_trace_records(p, alu, trace, k - 1);
        let s = trace[k - 1];
        let t = trace[k];
        assert(spec_running(p, s) && spec_linked(p, alu, s, trace[k - 1 + 1], Ok(())));
        assert(spec_running(p, trace[k]));
        let r: u64 = match spec_arith_request(p, s) {
            Some((op, x, y)) => choose|r: u64|
                alu.ensures((op, x, y), r) && #[trigger] spec_step(p, s, r) == (
                    t,
                    Ok::<(), VreError>(()),
                ),
            None => 0,
        };
        assert(spec_step(p, s, r) == (t, Ok::<(), VreError>(())));
        lemma_step_records(p, s, r);
        assert forall|x: int| trace[0].changes.len() <= x < t.changes.len() implies (
        #[trigger] t.changes[x]) is LocalStore by {
            if x < s.changes.len() {
                assert(t.changes.drop_last()[x] == t.changes[x] || t.changes == s.changes);
                assert(s.changes[x] is LocalStore);
            }
        }
    }
}

/// A run of a program without `Nop` from a safe state that ends suspended at
/// an external call, which is when it succeeds and its last event is a
/// request recorded during the run, ends in a safe state, unless it has
/// reached the end of the code. With `lemma_safe_after_results` the next run
/// starts from a safe state again.
pub proof fn lemma_suspended_run_is_safe<F: Fn(ArithOp, u64, u64) -> u64>(
    p: Program,
    alu: F,
    metas: Seq<Meta>,
    table: Seq<Option<usize>>,
    start: VmState,
    max_steps: u64,
    end: VmState,
    res: Result<(), VreError>,
)
    requires
        spec_analysed(p, metas, table),
        spec_without_nop(metas),
        spec_running(p, start) ==> spec_safe(spec_resolve(metas), table, start),
        start.frames.len() >= 1,
        spec_run(p, alu, start, max_steps, end, res),
        res is Ok,
        end.ip < p.code.len(),
        end.changes.len() > start.changes.len(),
        end.changes.last() is ExternalCallRequest,
    ensures
        spec_safe(spec_resolve(metas), table, end),
{
    let trace = choose|trace: Seq<VmState>|
        {
            &&& #[trigger] spec_trace(p, alu, trace)
            &&& trace[0] == start
            &&& trace.len() - 1 <= max_steps
            &&& match res {
                Ok(_) => trace.last() == end && (!spec_running(p, end) || trace.len() - 1
                    == max_steps),
                Err(_) => trace.len() - 1 < max_steps && spec_running(p, trace.last())
                    && spec_linked(p, alu, trace.last(), end, res),
            }
        };
    let n = trace.len() as int;
    assert(n >= 2);
    let s = trace[n - 2];
    lemma_trace_sound(p, alu, metas, table, trace, n - 2);
    lemma_trace_records(p, alu, trace, n - 2);
    assert(spec_running(p, s) && spec_linked(p, alu, s, trace[n - 2 + 1], Ok(())));
    let r: u64 = match spec_arith_request(p, s) {
        Some((op, x, y)) => choose|r: u64|
            alu.ensures((op, x, y), r) && #[trigger] spec_step(p, s, r) == (
                end,
                Ok::<(), VreError>(()),
            ),
        None => 0,
    };
    assert(spec_step(p, s, r) == (end, Ok::<(), VreError>(())));
    lemma_step_records(p, s, r);
    if p.code[s.ip as int] == 0xFF {
        assert(end.changes == s.changes);
        assert(s.changes[s.changes.len() - 1] is LocalStore);
    }
    lemma_step_sound(p, metas, table, s, r);
}

/// No run of an accepted program without `Nop`, started at offset zero in
/// the root frame, ends in a stack underflow.
pub proof fn lemma_run_never_underflows<F: Fn(ArithOp, u64, u64) -> u64>(
    p: Program,
    alu: F,
    start: VmState,
    max_steps: u64,
    end: VmState,
    res: Result<(), VreError>,
)
    requires
        p.code.len() <= usize::MAX,
        spec_validate(p.code) is Ok,
        spec_without_nop(spec_validate(p.code).unwrap()),
        start.ip == 0,
        start.frames.len() == 1,
        spec_run(p, alu, start, max_steps, end, res),
    ensures
        res != Err::<(), VreError>(VreError::StackUnderflow),
{
    let metas = spec_decode(p.code, 0, Seq::empty()).unwrap();
    let nodes = spec_resolve(metas);
    let len = p.code.len() as int;
    let table = spec_summaries(nodes);
    lemma_decoded_is_laid_out(p.code);
    lemma_resolve_resolves(p.code, metas, len);
    lemma_summaries_justified(nodes);
    assert forall|i: int| 0 <= i < metas.len() implies (#[trigger] metas[i]).opcode
        != OpCode::Nop by {
        assert(nodes[i] == spec_resolve_one(metas, i));
    }
    if spec_running(p, start) {
        assert(nodes.len() > 0);
        let hs = choose|hs: Seq<Option<usize>>| spec_is_cert(nodes, table, spec_global(), 0, hs);
        lemma_start_is_safe(p, metas, table, hs, start);
    }
    lemma_safe_run_never_underflows(p, alu, metas, table, start, max_steps, end, res);
}

} // verus!
