//! Callees that call each other.
//!
//! Two callees of the shape push, pop, call the other, return cannot get
//! their summaries one after the other: each needs that of the other. The
//! first series of rounds leaves both without summary. The second series
//! counts a call to a callee without summary as no change, and gives both the
//! summary zero.

use vstd::prelude::*;
use crate::bytecode::opcode::OpCode;
use super::decode::Meta;
use super::flow::{
    lemma_reach_entry, lemma_reach_step, spec_has_cert, spec_is_cert, spec_is_flow,
    spec_reachable, spec_settled, Mode,
};
use super::summary::{
    lemma_flow_unique, spec_call_targets, spec_flow_of, spec_group_local, spec_is_call_target,
    spec_phase, spec_reached_return, spec_return_height, spec_round, spec_strict_local,
    spec_summaries, spec_summary,
};
use super::validate::{spec_accepts, spec_global};

verus! {

/// Whether the four instructions from `a` push, pop, call the callee at `b`
/// and return.
pub open spec fn spec_bounces(nodes: Seq<Meta>, a: int, b: int) -> bool {
    &&& 0 <= a
    &&& a + 3 < nodes.len()
    &&& nodes[a].opcode == OpCode::Push
    &&& nodes[a + 1].opcode == OpCode::Pop
    &&& nodes[a + 2].opcode == OpCode::Call
    &&& nodes[a + 2].target_index == b
    &&& nodes[a + 3].opcode == OpCode::Return
}

/// Whether the callees at `a` and `b` are of that shape and call each other.
pub open spec fn spec_mutual_pair(nodes: Seq<Meta>, a: int, b: int) -> bool {
    spec_bounces(nodes, a, b) && spec_bounces(nodes, b, a)
}

/// The heights in the two callees: one behind the push, zero elsewhere, and
/// none outside the two.
pub open spec fn spec_pair_heights(n: nat, a: int, b: int) -> Seq<Option<usize>> {
    Seq::new(
        n,
        |i: int|
            if i == a || i == a + 2 || i == a + 3 || i == b || i == b + 2 || i == b + 3 {
                Some(0usize)
            } else if i == a + 1 || i == b + 1 {
                Some(1usize)
            } else {
                None
            },
    )
}

/// Whether the table holds zero or nothing for the callee at `t`.
pub open spec fn spec_zero_or_none(summ: Seq<Option<usize>>, t: int) -> bool {
    summ[t] is None || summ[t] == Some(0usize)
}

/// Every height assignment for the code entered at `x`, one of the two
/// callees, gives the first three instructions of the callee at `c` the
/// heights zero, one and zero, once it gives its entry the height zero.
proof fn lemma_pair_block(
    nodes: Seq<Meta>,
    summ: Seq<Option<usize>>,
    mode: Mode,
    x: int,
    c: int,
    d: int,
    other: Seq<Option<usize>>,
)
    requires
        spec_bounces(nodes, c, d),
        summ.len() == nodes.len(),
        spec_is_cert(nodes, summ, mode, x, other),
        other[c] == Some(0usize),
    ensures
        other[c + 1] == Some(1usize),
        other[c + 2] == Some(0usize),
        spec_settled(nodes, summ, mode, other, c + 2),
{
    assert(spec_settled(nodes, summ, mode, other, c));
    assert(spec_settled(nodes, summ, mode, other, c + 1));
    assert(spec_settled(nodes, summ, mode, other, c + 2));
}

/// With a call to a callee without summary counted as no change, the
/// analysis of either callee finds the heights of the pair.
proof fn lemma_pair_flow(
    nodes: Seq<Meta>,
    summ: Seq<Option<usize>>,
    mode: Mode,
    a: int,
    b: int,
    x: int,
)
    requires
        spec_mutual_pair(nodes, a, b),
        summ.len() == nodes.len(),
        spec_zero_or_none(summ, a),
        spec_zero_or_none(summ, b),
        mode.zero_missing || (summ[a] is Some && summ[b] is Some),
        x == a || x == b,
    ensures
        spec_is_flow(nodes, summ, mode, x, spec_pair_heights(nodes.len(), a, b)),
        spec_return_height(nodes, spec_pair_heights(nodes.len(), a, b), 0),
{
    let hs = spec_pair_heights(nodes.len(), a, b);
    let y = if x == a {
        b
    } else {
        a
    };
    assert forall|i: int| 0 <= i < nodes.len() && hs[i] is Some implies #[trigger] spec_settled(
        nodes,
        summ,
        mode,
        hs,
        i,
    ) by {}
    assert(spec_is_cert(nodes, summ, mode, x, hs));
    assert forall|other: Seq<Option<usize>>| #[trigger]
        spec_is_cert(nodes, summ, mode, x, other) implies super::flow::spec_below(other, hs) by {
        lemma_pair_block(nodes, summ, mode, x, x, y, other);
        assert(other[y] == Some(0usize));
        assert(other[x + 3] == Some(0usize));
        lemma_pair_block(nodes, summ, mode, x, y, x, other);
        assert(other[y + 3] == Some(0usize));
    }
    lemma_reach_entry(nodes, x);
    lemma_reach_step(nodes, x, x, x + 1);
    lemma_reach_step(nodes, x, x + 1, x + 2);
    lemma_reach_step(nodes, x, x + 2, x + 3);
    lemma_reach_step(nodes, x, x + 2, y);
    lemma_reach_step(nodes, x, y, y + 1);
    lemma_reach_step(nodes, x, y + 1, y + 2);
    lemma_reach_step(nodes, x, y + 2, y + 3);
    assert forall|i: int| 0 <= i < nodes.len() && (#[trigger] hs[i]) is Some implies spec_reachable(
        nodes,
        x,
        i,
    ) by {}
    assert(spec_reached_return(nodes, hs, a + 3));
    assert forall|i: int| #[trigger] spec_reached_return(nodes, hs, i) implies hs[i] == Some(
        0usize,
    ) by {}
}

/// With a call to a callee without summary counted as no change, either
/// callee gets the summary zero.
pub proof fn lemma_pair_summary(
    nodes: Seq<Meta>,
    summ: Seq<Option<usize>>,
    mode: Mode,
    a: int,
    b: int,
    x: int,
)
    requires
        spec_mutual_pair(nodes, a, b),
        summ.len() == nodes.len(),
        spec_zero_or_none(summ, a),
        spec_zero_or_none(summ, b),
        mode.zero_missing,
        x == a || x == b,
    ensures
        spec_summary(nodes, summ, mode, x) == Some(0usize),
{
    let hs = spec_pair_heights(nodes.len(), a, b);
    lemma_pair_flow(nodes, summ, mode, a, b, x);
    let found = choose|found: Seq<Option<usize>>| spec_is_flow(nodes, summ, mode, x, found);
    lemma_flow_unique(nodes, summ, mode, x, found, hs);
    assert(spec_flow_of(nodes, summ, mode, x) == Some(hs));
    let got = spec_flow_of(nodes, summ, mode, x).unwrap();
    assert(spec_return_height(nodes, got, 0usize));
    let d = choose|d: usize| spec_return_height(nodes, got, d);
    assert(spec_return_height(nodes, got, d));
    assert(spec_reached_return(nodes, got, a + 3));
    assert(got[a + 3] == Some(d));
    assert(d == 0);
}

/// Where a call to a callee without summary makes the analysis fail, and
/// neither callee has a summary, neither gets one.
pub proof fn lemma_pair_blocked(
    nodes: Seq<Meta>,
    summ: Seq<Option<usize>>,
    mode: Mode,
    a: int,
    b: int,
    x: int,
)
    requires
        spec_mutual_pair(nodes, a, b),
        summ.len() == nodes.len(),
        summ[a] is None,
        summ[b] is None,
        !mode.zero_missing,
        x == a || x == b,
    ensures
        spec_summary(nodes, summ, mode, x) is None,
{
    let y = if x == a {
        b
    } else {
        a
    };
    assert forall|hs: Seq<Option<usize>>| !spec_is_flow(nodes, summ, mode, x, hs) by {
        if spec_is_flow(nodes, summ, mode, x, hs) {
            assert(spec_is_cert(nodes, summ, mode, x, hs));
            lemma_pair_block(nodes, summ, mode, x, x, y, hs);
        }
    }
}

/// A round of the first series leaves both callees without summary.
pub proof fn lemma_round_blocked(
    nodes: Seq<Meta>,
    targets: Seq<bool>,
    a: int,
    b: int,
    k: int,
    summ: Seq<Option<usize>>,
    progress: bool,
)
    requires
        spec_mutual_pair(nodes, a, b),
        summ.len() == nodes.len(),
        summ[a] is None,
        summ[b] is None,
    ensures
        spec_round(nodes, targets, spec_strict_local(), k, summ, progress).0.len() == nodes.len(),
        spec_round(nodes, targets, spec_strict_local(), k, summ, progress).0[a] is None,
        spec_round(nodes, targets, spec_strict_local(), k, summ, progress).0[b] is None,
    decreases nodes.len() - k,
{
    let mode = spec_strict_local();
    if 0 <= k < nodes.len() {
        if targets[k] && summ[k] is None {
            if k == a || k == b {
                lemma_pair_blocked(nodes, summ, mode, a, b, k);
            }
            match spec_summary(nodes, summ, mode, k) {
                Some(d) => {
                    lemma_round_blocked(
                        nodes,
                        targets,
                        a,
                        b,
                        k + 1,
                        summ.update(k, Some(d)),
                        true,
                    );
                },
                None => {
                    lemma_round_blocked(nodes, targets, a, b, k + 1, summ, progress);
                },
            }
        } else {
            lemma_round_blocked(nodes, targets, a, b, k + 1, summ, progress);
        }
    }
}

/// The first series leaves both callees without summary.
pub proof fn lemma_phase_blocked(
    nodes: Seq<Meta>,
    targets: Seq<bool>,
    a: int,
    b: int,
    limit: nat,
    summ: Seq<Option<usize>>,
)
    requires
        spec_mutual_pair(nodes, a, b),
        summ.len() == nodes.len(),
        summ[a] is None,
        summ[b] is None,
    ensures
        spec_phase(nodes, targets, spec_strict_local(), limit, summ).len() == nodes.len(),
        spec_phase(nodes, targets, spec_strict_local(), limit, summ)[a] is None,
        spec_phase(nodes, targets, spec_strict_local(), limit, summ)[b] is None,
    decreases limit,
{
    if limit > 0 {
        lemma_round_blocked(nodes, targets, a, b, 0, summ, false);
        let next = spec_round(nodes, targets, spec_strict_local(), 0, summ, false);
        if next.1 {
            lemma_phase_blocked(nodes, targets, a, b, (limit - 1) as nat, next.0);
        }
    }
}

/// A round of the second series gives the summary zero to each of the two
/// callees that it comes to, and keeps the zero of one that has it.
pub proof fn lemma_round_settles(
    nodes: Seq<Meta>,
    a: int,
    b: int,
    k: int,
    summ: Seq<Option<usize>>,
    progress: bool,
)
    requires
        spec_mutual_pair(nodes, a, b),
        summ.len() == nodes.len(),
        spec_zero_or_none(summ, a),
        spec_zero_or_none(summ, b),
        k >= 0,
    ensures
        spec_round(
            nodes,
            spec_call_targets(nodes),
            spec_group_local(),
            k,
            summ,
            progress,
        ).0.len() == nodes.len(),
        spec_zero_or_none(
            spec_round(nodes, spec_call_targets(nodes), spec_group_local(), k, summ, progress).0,
            a,
        ),
        spec_zero_or_none(
            spec_round(nodes, spec_call_targets(nodes), spec_group_local(), k, summ, progress).0,
            b,
        ),
        k <= a || summ[a] is Some ==> spec_round(
            nodes,
            spec_call_targets(nodes),
            spec_group_local(),
            k,
            summ,
            progress,
        ).0[a] == Some(0usize),
        k <= b || summ[b] is Some ==> spec_round(
            nodes,
            spec_call_targets(nodes),
            spec_group_local(),
            k,
            summ,
            progress,
        ).0[b] == Some(0usize),
    decreases nodes.len() - k,
{
    let mode = spec_group_local();
    let targets = spec_call_targets(nodes);
    if k < nodes.len() {
        if k == a {
            assert(nodes[b + 2].opcode == OpCode::Call && nodes[b + 2].target_index == a);
            assert(spec_is_call_target(nodes, a));
        }
        if k == b {
            assert(nodes[a + 2].opcode == OpCode::Call && nodes[a + 2].target_index == b);
            assert(spec_is_call_target(nodes, b));
        }
        if targets[k] && summ[k] is None {
            if k == a || k == b {
                lemma_pair_summary(nodes, summ, mode, a, b, k);
            }
            match spec_summary(nodes, summ, mode, k) {
                Some(d) => {
                    lemma_round_settles(nodes, a, b, k + 1, summ.update(k, Some(d)), true);
                },
                None => {
                    lemma_round_settles(nodes, a, b, k + 1, summ, progress);
                },
            }
        } else {
            lemma_round_settles(nodes, a, b, k + 1, summ, progress);
        }
    }
}

/// The second series gives both callees the summary zero.
pub proof fn lemma_phase_settles(
    nodes: Seq<Meta>,
    a: int,
    b: int,
    limit: nat,
    summ: Seq<Option<usize>>,
)
    requires
        spec_mutual_pair(nodes, a, b),
        summ.len() == nodes.len(),
        spec_zero_or_none(summ, a),
        spec_zero_or_none(summ, b),
        limit > 0 || (summ[a] is Some && summ[b] is Some),
    ensures
        spec_phase(nodes, spec_call_targets(nodes), spec_group_local(), limit, summ).len()
            == nodes.len(),
        spec_phase(nodes, spec_call_targets(nodes), spec_group_local(), limit, summ)[a] == Some(
            0usize,
        ),
        spec_phase(nodes, spec_call_targets(nodes), spec_group_local(), limit, summ)[b] == Some(
            0usize,
        ),
    decreases limit,
{
    if limit > 0 {
        lemma_round_settles(nodes, a, b, 0, summ, false);
        let next = spec_round(nodes, spec_call_targets(nodes), spec_group_local(), 0, summ, false);
        if next.1 {
            lemma_phase_settles(nodes, a, b, (limit - 1) as nat, next.0);
        }
    }
}

/// Two callees that push, pop, call each other and return both get the
/// summary zero, wherever in the program they stand and whatever else the
/// program holds.
pub proof fn lemma_mutual_pair_summaries(nodes: Seq<Meta>, a: int, b: int)
    requires
        spec_mutual_pair(nodes, a, b),
    ensures
        spec_summaries(nodes).len() == nodes.len(),
        spec_summaries(nodes)[a] == Some(0usize),
        spec_summaries(nodes)[b] == Some(0usize),
{
    let targets = spec_call_targets(nodes);
    let none = Seq::new(nodes.len(), |i: int| None::<usize>);
    lemma_phase_blocked(nodes, targets, a, b, nodes.len(), none);
    let first = spec_phase(nodes, targets, spec_strict_local(), nodes.len(), none);
    lemma_phase_settles(nodes, a, b, nodes.len(), first);
}

/// A program that starts with one of two such callees, and in which every
/// call goes to one of the two, passes the stack-height analysis.
pub proof fn lemma_mutual_pair_accepted(nodes: Seq<Meta>, b: int)
    requires
        spec_mutual_pair(nodes, 0, b),
        forall|i: int|
            0 <= i < nodes.len() && (#[trigger] nodes[i]).opcode == OpCode::Call ==> (
            nodes[i].target_index == 0 || nodes[i].target_index == b),
    ensures
        spec_accepts(nodes),
{
    let table = spec_summaries(nodes);
    lemma_mutual_pair_summaries(nodes, 0, b);
    assert forall|t: int| 0 <= t < nodes.len() && #[trigger] spec_is_call_target(
        nodes,
        t,
    ) implies table[t] is Some by {
        let i = choose|i: int|
            0 <= i < nodes.len() && (#[trigger] nodes[i]).opcode == OpCode::Call
                && nodes[i].target_index == t;
    }
    lemma_pair_flow(nodes, table, spec_global(), 0, b, 0);
    assert(spec_is_cert(nodes, table, spec_global(), 0, spec_pair_heights(nodes.len(), 0, b)));
    assert(spec_has_cert(nodes, table, spec_global(), 0));
}

} // verus!
