//! Callee summaries: the net change of stack height between the entry of a
//! callee and its returns.
//!
//! A callee has a summary when the analysis of its code, entered with an empty
//! stack, succeeds, reaches a return, and finds all returns at one height.
//! Summaries are found in rounds, since the summary of one callee may need
//! that of another. A second series of rounds lets a call to a callee that
//! still has no summary count as no change, which settles groups of callees
//! that call each other.

use vstd::prelude::*;
use crate::bytecode::opcode::OpCode;
use super::decode::{spec_resolved, Meta};
use super::flow::{flow, spec_below, spec_is_cert, spec_is_flow, Mode};

verus! {

/// Whether instruction `i` is a return that the analysis reached.
pub open spec fn spec_reached_return(nodes: Seq<Meta>, hs: Seq<Option<usize>>, i: int) -> bool {
    0 <= i < nodes.len() && nodes[i].opcode == OpCode::Return && hs[i] is Some
}

/// Whether some return was reached and every reached return stands at
/// height `d`.
pub open spec fn spec_return_height(nodes: Seq<Meta>, hs: Seq<Option<usize>>, d: usize) -> bool {
    &&& exists|i: int| #[trigger] spec_reached_return(nodes, hs, i)
    &&& forall|i: int| #[trigger] spec_reached_return(nodes, hs, i) ==> hs[i] == Some(d)
}

/// The result of the analysis from `entry`, if it succeeds.
pub open spec fn spec_flow_of(
    nodes: Seq<Meta>,
    summ: Seq<Option<usize>>,
    mode: Mode,
    entry: int,
) -> Option<Seq<Option<usize>>> {
    if exists|hs: Seq<Option<usize>>| spec_is_flow(nodes, summ, mode, entry, hs) {
        Some(choose|hs: Seq<Option<usize>>| spec_is_flow(nodes, summ, mode, entry, hs))
    } else {
        None
    }
}

/// The summary of the callee that starts at `entry`, given the summaries
/// `summ` of others.
pub open spec fn spec_summary(
    nodes: Seq<Meta>,
    summ: Seq<Option<usize>>,
    mode: Mode,
    entry: int,
) -> Option<usize> {
    match spec_flow_of(nodes, summ, mode, entry) {
        None => None,
        Some(hs) => if exists|d: usize| spec_return_height(nodes, hs, d) {
            Some(choose|d: usize| spec_return_height(nodes, hs, d))
        } else {
            None
        },
    }
}

/// Whether some call goes to instruction `t`.
pub open spec fn spec_is_call_target(nodes: Seq<Meta>, t: int) -> bool {
    exists|i: int|
        0 <= i < nodes.len() && (#[trigger] nodes[i]).opcode == OpCode::Call
            && nodes[i].target_index == t
}

/// For each instruction, whether some call goes to it.
pub open spec fn spec_call_targets(nodes: Seq<Meta>) -> Seq<bool> {
    Seq::new(nodes.len(), |t: int| spec_is_call_target(nodes, t))
}

/// One round from callee `k` on: each callee without summary is analysed in
/// turn, with the summaries found so far. Returns the summaries after the
/// round and whether the round found any.
pub open spec fn spec_round(
    nodes: Seq<Meta>,
    targets: Seq<bool>,
    mode: Mode,
    k: int,
    summ: Seq<Option<usize>>,
    progress: bool,
) -> (Seq<Option<usize>>, bool)
    decreases nodes.len() - k,
{
    if k < 0 || k >= nodes.len() {
        (summ, progress)
    } else if targets[k] && summ[k] is None {
        match spec_summary(nodes, summ, mode, k) {
            Some(d) => spec_round(nodes, targets, mode, k + 1, summ.update(k, Some(d)), true),
            None => spec_round(nodes, targets, mode, k + 1, summ, progress),
        }
    } else {
        spec_round(nodes, targets, mode, k + 1, summ, progress)
    }
}

/// Rounds until one finds nothing, and at most `limit` of them.
pub open spec fn spec_phase(
    nodes: Seq<Meta>,
    targets: Seq<bool>,
    mode: Mode,
    limit: nat,
    summ: Seq<Option<usize>>,
) -> Seq<Option<usize>>
    decreases limit,
{
    if limit == 0 {
        summ
    } else {
        let next = spec_round(nodes, targets, mode, 0, summ, false);
        if next.1 {
            spec_phase(nodes, targets, mode, (limit - 1) as nat, next.0)
        } else {
            next.0
        }
    }
}

/// The mode of the first series of rounds.
pub open spec fn spec_strict_local() -> Mode {
    Mode { allow_external: false, zero_missing: false }
}

/// The mode of the second series, for callees that call each other.
pub open spec fn spec_group_local() -> Mode {
    Mode { allow_external: false, zero_missing: true }
}

/// The summaries of all callees of a program. Each series runs at most as
/// many rounds as there are instructions; every round but the last of a
/// series gives at least one more callee its summary.
pub open spec fn spec_summaries(nodes: Seq<Meta>) -> Seq<Option<usize>> {
    let targets = spec_call_targets(nodes);
    let first = spec_phase(
        nodes,
        targets,
        spec_strict_local(),
        nodes.len(),
        Seq::new(nodes.len(), |i: int| None::<usize>),
    );
    spec_phase(nodes, targets, spec_group_local(), nodes.len(), first)
}

/// Whether table `b` holds every summary that table `a` holds.
pub open spec fn spec_table_below(a: Seq<Option<usize>>, b: Seq<Option<usize>>) -> bool {
    &&& a.len() == b.len()
    &&& forall|u: int| 0 <= u < a.len() && (#[trigger] a[u]) is Some ==> b[u] == a[u]
}

/// Whether the summary of callee `t` in `table` rests on an analysis: some
/// height assignment for the code entered at `t`, made without external
/// calls and with summaries that `table` holds too, finds every reached
/// return at the height that is the summary.
pub open spec fn spec_justified(nodes: Seq<Meta>, table: Seq<Option<usize>>, t: int) -> bool {
    exists|used: Seq<Option<usize>>, mode: Mode, hs: Seq<Option<usize>>|
        {
            &&& spec_table_below(used, table)
            &&& !mode.allow_external
            &&& #[trigger] spec_is_cert(nodes, used, mode, t, hs)
            &&& spec_return_height(nodes, hs, table[t].unwrap())
        }
}

/// Whether every summary in `table` rests on an analysis.
pub open spec fn spec_all_justified(nodes: Seq<Meta>, table: Seq<Option<usize>>) -> bool {
    &&& table.len() == nodes.len()
    &&& forall|t: int|
        0 <= t < nodes.len() && table[t] is Some ==> #[trigger] spec_justified(nodes, table, t)
}

/// A summary that rests on an analysis still does in a table that holds
/// more.
pub proof fn lemma_justified_grows(
    nodes: Seq<Meta>,
    a: Seq<Option<usize>>,
    b: Seq<Option<usize>>,
    t: int,
)
    requires
        0 <= t < a.len(),
        a[t] is Some,
        spec_justified(nodes, a, t),
        spec_table_below(a, b),
    ensures
        spec_justified(nodes, b, t),
{
    let (used, mode, hs) = choose|used: Seq<Option<usize>>, mode: Mode, hs: Seq<Option<usize>>|
        {
            &&& spec_table_below(used, a)
            &&& !mode.allow_external
            &&& #[trigger] spec_is_cert(nodes, used, mode, t, hs)
            &&& spec_return_height(nodes, hs, a[t].unwrap())
        };
    assert(spec_table_below(used, b)) by {
        assert forall|u: int| 0 <= u < used.len() && (#[trigger] used[u]) is Some implies b[u]
            == used[u] by {
            assert(a[u] == used[u]);
        }
    }
    assert(spec_is_cert(nodes, used, mode, t, hs));
}

/// A round keeps the summaries it finds, and those it adds rest on an
/// analysis.
pub proof fn lemma_round_justified(
    nodes: Seq<Meta>,
    targets: Seq<bool>,
    mode: Mode,
    k: int,
    summ: Seq<Option<usize>>,
    progress: bool,
)
    requires
        !mode.allow_external,
        spec_all_justified(nodes, summ),
    ensures
        spec_all_justified(nodes, spec_round(nodes, targets, mode, k, summ, progress).0),
        spec_table_below(summ, spec_round(nodes, targets, mode, k, summ, progress).0),
    decreases nodes.len() - k,
{
    if 0 <= k < nodes.len() {
        if targets[k] && summ[k] is None {
            match spec_summary(nodes, summ, mode, k) {
                Some(d) => {
                    let next = summ.update(k, Some(d));
                    let hs = spec_flow_of(nodes, summ, mode, k).unwrap();
                    assert(spec_is_flow(nodes, summ, mode, k, hs));
                    assert(spec_return_height(nodes, hs, d));
                    assert(spec_table_below(summ, next));
                    assert(spec_is_cert(nodes, summ, mode, k, hs));
                    assert(spec_justified(nodes, next, k));
                    assert forall|t: int|
                        0 <= t < nodes.len() && next[t] is Some implies #[trigger] spec_justified(
                        nodes,
                        next,
                        t,
                    ) by {
                        if t != k {
                            assert(spec_justified(nodes, summ, t));
                            lemma_justified_grows(nodes, summ, next, t);
                        }
                    }
                    lemma_round_justified(nodes, targets, mode, k + 1, next, true);
                    let last = spec_round(nodes, targets, mode, k + 1, next, true).0;
                    assert forall|u: int| 0 <= u < summ.len() && (#[trigger] summ[u])
                        is Some implies last[u] == summ[u] by {
                        assert(next[u] == summ[u]);
                    }
                },
                None => {
                    lemma_round_justified(nodes, targets, mode, k + 1, summ, progress);
                },
            }
        } else {
            lemma_round_justified(nodes, targets, mode, k + 1, summ, progress);
        }
    }
}

/// A series of rounds keeps the summaries it finds, and those it adds rest
/// on an analysis.
pub proof fn lemma_phase_justified(
    nodes: Seq<Meta>,
    targets: Seq<bool>,
    mode: Mode,
    limit: nat,
    summ: Seq<Option<usize>>,
)
    requires
        !mode.allow_external,
        spec_all_justified(nodes, summ),
    ensures
        spec_all_justified(nodes, spec_phase(nodes, targets, mode, limit, summ)),
    decreases limit,
{
    if limit > 0 {
        lemma_round_justified(nodes, targets, mode, 0, summ, false);
        let next = spec_round(nodes, targets, mode, 0, summ, false);
        if next.1 {
            lemma_phase_justified(nodes, targets, mode, (limit - 1) as nat, next.0);
        }
    }
}

/// Every summary of a program rests on an analysis.
pub proof fn lemma_summaries_justified(nodes: Seq<Meta>)
    ensures
        spec_all_justified(nodes, spec_summaries(nodes)),
{
    let targets = spec_call_targets(nodes);
    let none = Seq::new(nodes.len(), |i: int| None::<usize>);
    assert(spec_all_justified(nodes, none));
    lemma_phase_justified(nodes, targets, spec_strict_local(), nodes.len(), none);
    let first = spec_phase(nodes, targets, spec_strict_local(), nodes.len(), none);
    lemma_phase_justified(nodes, targets, spec_group_local(), nodes.len(), first);
}

/// The analysis has one result at most.
pub proof fn lemma_flow_unique(
    nodes: Seq<Meta>,
    summ: Seq<Option<usize>>,
    mode: Mode,
    entry: int,
    a: Seq<Option<usize>>,
    b: Seq<Option<usize>>,
)
    requires
        spec_is_flow(nodes, summ, mode, entry, a),
        spec_is_flow(nodes, summ, mode, entry, b),
    ensures
        a == b,
{
    assert(spec_is_cert(nodes, summ, mode, entry, a));
    assert(spec_is_cert(nodes, summ, mode, entry, b));
    assert(spec_below(a, b));
    assert(spec_below(b, a));
    assert forall|i: int| 0 <= i < a.len() implies a[i] == b[i] by {
        if a[i] is Some {
            assert(b[i] is Some);
        } else if b[i] is Some {
            assert(a[i] is Some);
        }
    }
    assert(a =~= b);
}

/// The height at which all reached returns stand, if there is a reached
/// return and they agree.
pub fn common_return_height(nodes: &Vec<Meta>, hs: &Vec<Option<usize>>) -> (res: Option<usize>)
    requires
        hs@.len() == nodes@.len(),
    ensures
        match res {
            Some(d) => spec_return_height(nodes@, hs@, d),
            None => forall|d: usize| !spec_return_height(nodes@, hs@, d),
        },
{
    let n = nodes.len();
    let mut found: Option<usize> = None;
    let mut i: usize = 0;
    while i < n
        invariant
            i <= n,
            n == nodes@.len(),
            n == hs@.len(),
            found is None ==> forall|j: int|
                0 <= j < i ==> !#[trigger] spec_reached_return(nodes@, hs@, j),
            found is Some ==> exists|j: int|
                0 <= j < i && #[trigger] spec_reached_return(nodes@, hs@, j),
            found is Some ==> forall|j: int|
                0 <= j < i && #[trigger] spec_reached_return(nodes@, hs@, j) ==> hs@[j] == found,
        decreases n - i,
    {
        if nodes[i].opcode == OpCode::Return {
            match hs[i] {
                Some(h) => {
                    assert(spec_reached_return(nodes@, hs@, i as int));
                    match found {
                        None => {
                            found = Some(h);
                        },
                        Some(d) => {
                            if d != h {
                                proof {
                                    let j = choose|j: int|
                                        0 <= j < i && #[trigger] spec_reached_return(
                                            nodes@,
                                            hs@,
                                            j,
                                        );
                                    assert(hs@[j] == Some(d));
                                }
                                return None;
                            }
                        },
                    }
                },
                None => {},
            }
        }
        i += 1;
    }
    found
}

/// The summary of the callee that starts at `entry`.
pub fn summarize_one(nodes: &Vec<Meta>, summ: &Vec<Option<usize>>, mode: Mode, entry: usize) -> (res:
    Option<usize>)
    requires
        spec_resolved(nodes@),
        summ@.len() == nodes@.len(),
        entry < nodes@.len(),
    ensures
        res == spec_summary(nodes@, summ@, mode, entry as int),
{
    match flow(nodes, summ, mode, entry) {
        None => {
            proof {
                assert forall|hs: Seq<Option<usize>>| !spec_is_flow(
                    nodes@,
                    summ@,
                    mode,
                    entry as int,
                    hs,
                ) by {
                    if spec_is_flow(nodes@, summ@, mode, entry as int, hs) {
                        assert(spec_is_cert(nodes@, summ@, mode, entry as int, hs));
                    }
                }
            }
            None
        },
        Some(hs) => {
            proof {
                let c = choose|c: Seq<Option<usize>>|
                    spec_is_flow(nodes@, summ@, mode, entry as int, c);
                lemma_flow_unique(nodes@, summ@, mode, entry as int, c, hs@);
                assert(spec_flow_of(nodes@, summ@, mode, entry as int) == Some(hs@));
            }
            let r = common_return_height(nodes, &hs);
            proof {
                match r {
                    Some(d) => {
                        let c = choose|c: usize| spec_return_height(nodes@, hs@, c);
                        let w = choose|w: int| #[trigger] spec_reached_return(nodes@, hs@, w);
                        assert(hs@[w] == Some(d));
                        assert(hs@[w] == Some(c));
                    },
                    None => {},
                }
            }
            r
        },
    }
}

/// Marks the instructions that some call goes to.
pub fn call_targets(nodes: &Vec<Meta>) -> (res: Vec<bool>)
    requires
        spec_resolved(nodes@),
    ensures
        res@ == spec_call_targets(nodes@),
{
    let n = nodes.len();
    let mut marks: Vec<bool> = Vec::new();
    let mut k: usize = 0;
    while k < n
        invariant
            k <= n,
            marks@.len() == k,
            forall|j: int| 0 <= j < k ==> !marks@[j],
        decreases n - k,
    {
        marks.push(false);
        k += 1;
    }
    let mut i: usize = 0;
    while i < n
        invariant
            i <= n,
            n == nodes@.len(),
            marks@.len() == n,
            spec_resolved(nodes@),
            forall|t: int|
                0 <= t < n ==> (#[trigger] marks@[t] <==> exists|j: int|
                    0 <= j < i && (#[trigger] nodes@[j]).opcode == OpCode::Call
                        && nodes@[j].target_index == t),
        decreases n - i,
    {
        let m = nodes[i];
        if m.opcode == OpCode::Call {
            let ghost before = marks@;
            marks.set(m.target_index, true);
            assert forall|t: int| 0 <= t < n implies (#[trigger] marks@[t] <==> exists|j: int|
                0 <= j < i + 1 && (#[trigger] nodes@[j]).opcode == OpCode::Call
                    && nodes@[j].target_index == t) by {
                if t == m.target_index {
                    assert(nodes@[i as int].opcode == OpCode::Call);
                } else {
                    assert(marks@[t] == before[t]);
                }
            }
        }
        i += 1;
    }
    assert(marks@ =~= spec_call_targets(nodes@));
    marks
}

/// One series of rounds.
pub fn phase(nodes: &Vec<Meta>, targets: &Vec<bool>, mode: Mode, start: Vec<Option<usize>>) -> (res:
    Vec<Option<usize>>)
    requires
        spec_resolved(nodes@),
        targets@.len() == nodes@.len(),
        start@.len() == nodes@.len(),
    ensures
        res@ == spec_phase(nodes@, targets@, mode, nodes@.len(), start@),
        res@.len() == nodes@.len(),
{
    let n = nodes.len();
    let mut summ = start;
    let ghost first = summ@;
    let mut limit: usize = n;
    while limit > 0
        invariant
            n == nodes@.len(),
            n == targets@.len(),
            n == summ@.len(),
            first == start@,
            spec_resolved(nodes@),
            spec_phase(nodes@, targets@, mode, n as nat, first) == spec_phase(
                nodes@,
                targets@,
                mode,
                limit as nat,
                summ@,
            ),
        decreases limit,
    {
        let ghost s0 = summ@;
        let mut progress = false;
        let mut k: usize = 0;
        while k < n
            invariant
                k <= n,
                n == nodes@.len(),
                n == targets@.len(),
                n == summ@.len(),
                spec_resolved(nodes@),
                spec_round(nodes@, targets@, mode, 0, s0, false) == spec_round(
                    nodes@,
                    targets@,
                    mode,
                    k as int,
                    summ@,
                    progress,
                ),
            decreases n - k,
        {
            let open = match summ[k] {
                None => targets[k],
                Some(_) => false,
            };
            if open {
                match summarize_one(nodes, &summ, mode, k) {
                    Some(d) => {
                        summ.set(k, Some(d));
                        progress = true;
                    },
                    None => {},
                }
            }
            k += 1;
        }
        assert(spec_round(nodes@, targets@, mode, n as int, summ@, progress) == (summ@, progress));
        assert(spec_round(nodes@, targets@, mode, 0, s0, false) == (summ@, progress));
        if !progress {
            return summ;
        }
        limit -= 1;
    }
    summ
}

/// Pass three: the summaries of all callees.
pub fn summarize(nodes: &Vec<Meta>) -> (res: Vec<Option<usize>>)
    requires
        spec_resolved(nodes@),
    ensures
        res@ == spec_summaries(nodes@),
        res@.len() == nodes@.len(),
{
    let n = nodes.len();
    let targets = call_targets(nodes);
    let mut none: Vec<Option<usize>> = Vec::new();
    let mut k: usize = 0;
    while k < n
        invariant
            k <= n,
            none@.len() == k,
            forall|j: int| 0 <= j < k ==> none@[j] is None,
        decreases n - k,
    {
        none.push(None);
        k += 1;
    }
    assert(none@ =~= Seq::new(nodes@.len(), |i: int| None::<usize>));
    let first = phase(nodes, &targets, Mode { allow_external: false, zero_missing: false }, none);
    phase(nodes, &targets, Mode { allow_external: false, zero_missing: true }, first)
}

} // verus!
