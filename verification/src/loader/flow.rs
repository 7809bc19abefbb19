//! Stack-height analysis over the control-flow graph.
//!
//! Every instruction has at most two successors: the target of a jump or
//! call, and the instruction behind it. A height assignment gives each
//! instruction that control can reach the number of values that are surely on
//! the stack when it runs. The analysis finds the greatest such assignment,
//! or finds that there is none.

use vstd::prelude::*;
use crate::bytecode::opcode::OpCode;
use super::decode::{spec_is_branch, spec_resolved, Meta};

verus! {

/// How the analysis treats external calls, and calls whose callee has no
/// summary.
#[derive(Debug, Clone, Copy)]
pub struct Mode {
    /// External calls are analysed; otherwise one makes the analysis fail.
    pub allow_external: bool,
    /// A call to a callee without summary leaves the height unchanged;
    /// otherwise it makes the analysis fail.
    pub zero_missing: bool,
}

/// `h + d`, held at the largest machine number if it would pass it.
pub open spec fn spec_sat_add(h: usize, d: usize) -> usize {
    if h + d > usize::MAX {
        usize::MAX
    } else {
        (h + d) as usize
    }
}

/// The height behind instruction `m` when it runs at height `h`, or `None`
/// where it cannot run at that height.
pub open spec fn spec_effect(m: Meta, h: usize, summ: Seq<Option<usize>>, mode: Mode) -> Option<
    usize,
> {
    match m.opcode {
        OpCode::Push | OpCode::LoadLocal => Some(spec_sat_add(h, 1)),
        OpCode::Dup => if h >= 1 {
            Some(spec_sat_add(h, 1))
        } else {
            None
        },
        OpCode::Pop | OpCode::StoreLocal | OpCode::JumpIf => if h >= 1 {
            Some((h - 1) as usize)
        } else {
            None
        },
        OpCode::Neg => if h >= 1 {
            Some(h)
        } else {
            None
        },
        OpCode::ExternalCall => if mode.allow_external && h >= m.b {
            Some((h - m.b) as usize)
        } else {
            None
        },
        OpCode::Call => match summ[m.target_index as int] {
            Some(d) => Some(spec_sat_add(h, d)),
            None => if mode.zero_missing {
                Some(h)
            } else {
                None
            },
        },
        OpCode::Jump | OpCode::Return | OpCode::Nop | OpCode::Halt => Some(h),
        _ => if h >= 2 {
            Some((h - 1) as usize)
        } else {
            None
        },
    }
}

/// The successor that a jump or call names.
pub open spec fn spec_jump_succ(nodes: Seq<Meta>, i: int) -> Option<int> {
    if spec_is_branch(nodes[i].opcode) {
        Some(nodes[i].target_index as int)
    } else {
        None
    }
}

/// The successor by falling through to the next instruction. Halt, Nop,
/// Return and Jump have none, nor has the last instruction.
pub open spec fn spec_next_succ(nodes: Seq<Meta>, i: int) -> Option<int> {
    match nodes[i].opcode {
        OpCode::Halt | OpCode::Nop | OpCode::Return | OpCode::Jump => None,
        _ => if i + 1 < nodes.len() {
            Some(i + 1)
        } else {
            None
        },
    }
}

/// Whether control can pass from instruction `i` straight to `s`.
pub open spec fn spec_is_succ(nodes: Seq<Meta>, i: int, s: int) -> bool {
    spec_jump_succ(nodes, i) == Some(s) || spec_next_succ(nodes, i) == Some(s)
}

/// Whether successor `s`, if there is one, has a height of at most `o`.
pub open spec fn spec_edge_ok(hs: Seq<Option<usize>>, s: Option<int>, o: usize) -> bool {
    match s {
        None => true,
        Some(t) => hs[t] is Some && hs[t].unwrap() <= o,
    }
}

/// Whether instruction `i` can run at its height and each successor's height
/// is at most the height behind `i`.
pub open spec fn spec_settled(
    nodes: Seq<Meta>,
    summ: Seq<Option<usize>>,
    mode: Mode,
    hs: Seq<Option<usize>>,
    i: int,
) -> bool {
    match spec_effect(nodes[i], hs[i].unwrap(), summ, mode) {
        None => false,
        Some(o) => spec_edge_ok(hs, spec_jump_succ(nodes, i), o) && spec_edge_ok(
            hs,
            spec_next_succ(nodes, i),
            o,
        ),
    }
}

/// Whether `hs` is a height assignment for the code entered at `entry` with
/// an empty stack: the entry has height zero, and every instruction with a
/// height is settled.
pub open spec fn spec_is_cert(
    nodes: Seq<Meta>,
    summ: Seq<Option<usize>>,
    mode: Mode,
    entry: int,
    hs: Seq<Option<usize>>,
) -> bool {
    &&& hs.len() == nodes.len()
    &&& hs[entry] == Some(0usize)
    &&& forall|i: int|
        0 <= i < nodes.len() && hs[i] is Some ==> #[trigger] spec_settled(nodes, summ, mode, hs, i)
}

/// Whether `lo` gives a height, and no greater one, wherever `hi` gives one.
pub open spec fn spec_below(lo: Seq<Option<usize>>, hi: Seq<Option<usize>>) -> bool {
    &&& lo.len() == hi.len()
    &&& forall|i: int|
        0 <= i < hi.len() && (#[trigger] hi[i]) is Some ==> lo[i] is Some && lo[i].unwrap()
            <= hi[i].unwrap()
}

/// Whether `path` leads from `entry` along successor edges.
pub open spec fn spec_is_path(nodes: Seq<Meta>, entry: int, path: Seq<int>) -> bool {
    &&& path.len() >= 1
    &&& path[0] == entry
    &&& forall|k: int|
        0 <= k < path.len() - 1 ==> 0 <= #[trigger] path[k] < nodes.len() && spec_is_succ(
            nodes,
            path[k],
            path[k + 1],
        )
}

/// Whether control that enters at `entry` can reach instruction `i`.
pub open spec fn spec_reachable(nodes: Seq<Meta>, entry: int, i: int) -> bool {
    exists|path: Seq<int>| #[trigger] spec_is_path(nodes, entry, path) && path.last() == i
}

/// Whether `hs` is the result of the analysis: a height assignment that is
/// above every other one and gives heights to reachable instructions only.
pub open spec fn spec_is_flow(
    nodes: Seq<Meta>,
    summ: Seq<Option<usize>>,
    mode: Mode,
    entry: int,
    hs: Seq<Option<usize>>,
) -> bool {
    &&& spec_is_cert(nodes, summ, mode, entry, hs)
    &&& forall|other: Seq<Option<usize>>| #[trigger]
        spec_is_cert(nodes, summ, mode, entry, other) ==> spec_below(other, hs)
    &&& forall|i: int|
        0 <= i < nodes.len() && (#[trigger] hs[i]) is Some ==> spec_reachable(nodes, entry, i)
}

/// Whether the code entered at `entry` has a height assignment at all.
pub open spec fn spec_has_cert(
    nodes: Seq<Meta>,
    summ: Seq<Option<usize>>,
    mode: Mode,
    entry: int,
) -> bool {
    exists|hs: Seq<Option<usize>>| spec_is_cert(nodes, summ, mode, entry, hs)
}

/// An instruction that can run at a height can run at every greater height,
/// and leaves no less behind.
pub proof fn lemma_effect_monotone(
    m: Meta,
    lo: usize,
    hi: usize,
    summ: Seq<Option<usize>>,
    mode: Mode,
)
    requires
        lo <= hi,
        spec_effect(m, lo, summ, mode) is Some,
    ensures
        spec_effect(m, hi, summ, mode) is Some,
        spec_effect(m, lo, summ, mode).unwrap() <= spec_effect(m, hi, summ, mode).unwrap(),
{
}

/// A successor of a reachable instruction is reachable.
pub proof fn lemma_reach_step(nodes: Seq<Meta>, entry: int, i: int, s: int)
    requires
        spec_reachable(nodes, entry, i),
        0 <= i < nodes.len(),
        spec_is_succ(nodes, i, s),
    ensures
        spec_reachable(nodes, entry, s),
{
    let p = choose|p: Seq<int>| #[trigger] spec_is_path(nodes, entry, p) && p.last() == i;
    let q = p.push(s);
    assert forall|k: int| 0 <= k < q.len() - 1 implies 0 <= #[trigger] q[k] < nodes.len()
        && spec_is_succ(nodes, q[k], q[k + 1]) by {
        if k < p.len() - 1 {
            assert(q[k] == p[k]);
            assert(q[k + 1] == p[k + 1]);
        }
    }
    assert(spec_is_path(nodes, entry, q));
    assert(q.last() == s);
}

/// The entry is reachable.
pub proof fn lemma_reach_entry(nodes: Seq<Meta>, entry: int)
    ensures
        spec_reachable(nodes, entry, entry),
{
    let p = seq![entry];
    assert(spec_is_path(nodes, entry, p));
    assert(p.last() == entry);
}

/// A height assignment gives a height to every instruction at the end of a
/// path from the entry.
pub proof fn lemma_cert_covers_path(
    nodes: Seq<Meta>,
    summ: Seq<Option<usize>>,
    mode: Mode,
    entry: int,
    hs: Seq<Option<usize>>,
    path: Seq<int>,
)
    requires
        spec_resolved(nodes),
        0 <= entry < nodes.len(),
        spec_is_cert(nodes, summ, mode, entry, hs),
        spec_is_path(nodes, entry, path),
    ensures
        0 <= path.last() < nodes.len(),
        hs[path.last()] is Some,
    decreases path.len(),
{
    if path.len() > 1 {
        let p = path.drop_last();
        assert forall|k: int| 0 <= k < p.len() - 1 implies 0 <= #[trigger] p[k] < nodes.len()
            && spec_is_succ(nodes, p[k], p[k + 1]) by {
            assert(p[k] == path[k]);
            assert(p[k + 1] == path[k + 1]);
        }
        assert(spec_is_path(nodes, entry, p));
        lemma_cert_covers_path(nodes, summ, mode, entry, hs, p);
        let i = p.last();
        let k = path.len() - 2;
        assert(path[k] == i);
        assert(spec_is_succ(nodes, i, path[k + 1]));
        assert(spec_settled(nodes, summ, mode, hs, i));
    }
}

/// What an absent or present height counts for in the measure of progress.
pub open spec fn spec_weight(h: Option<usize>) -> int {
    match h {
        None => usize::MAX as int + 1,
        Some(v) => v as int,
    }
}

/// The sum of the weights of `hs`.
pub open spec fn spec_total(hs: Seq<Option<usize>>) -> int
    decreases hs.len(),
{
    if hs.len() == 0 {
        0
    } else {
        spec_total(hs.drop_last()) + spec_weight(hs.last())
    }
}

proof fn lemma_total_nonneg(hs: Seq<Option<usize>>)
    ensures
        spec_total(hs) >= 0,
    decreases hs.len(),
{
    if hs.len() > 0 {
        lemma_total_nonneg(hs.drop_last());
    }
}

proof fn lemma_total_update(hs: Seq<Option<usize>>, i: int, v: Option<usize>)
    requires
        0 <= i < hs.len(),
    ensures
        spec_total(hs.update(i, v)) == spec_total(hs) - spec_weight(hs[i]) + spec_weight(v),
    decreases hs.len(),
{
    if i == hs.len() - 1 {
        assert(hs.update(i, v).drop_last() =~= hs.drop_last());
    } else {
        assert(hs.update(i, v).drop_last() =~= hs.drop_last().update(i, v));
        lemma_total_update(hs.drop_last(), i, v);
    }
}

/// `h + d`, held at the largest machine number if it would pass it.
pub fn sat_add(h: usize, d: usize) -> (r: usize)
    ensures
        r == spec_sat_add(h, d),
{
    if h > usize::MAX - d {
        usize::MAX
    } else {
        h + d
    }
}

/// The height behind instruction `m` when it runs at height `h`.
pub fn effect(m: &Meta, h: usize, summ: &Vec<Option<usize>>, mode: Mode) -> (res: Option<usize>)
    requires
        m.opcode == OpCode::Call ==> m.target_index < summ@.len(),
    ensures
        res == spec_effect(*m, h, summ@, mode),
{
    match m.opcode {
        OpCode::Push | OpCode::LoadLocal => Some(sat_add(h, 1)),
        OpCode::Dup => if h >= 1 {
            Some(sat_add(h, 1))
        } else {
            None
        },
        OpCode::Pop | OpCode::StoreLocal | OpCode::JumpIf => if h >= 1 {
            Some(h - 1)
        } else {
            None
        },
        OpCode::Neg => if h >= 1 {
            Some(h)
        } else {
            None
        },
        OpCode::ExternalCall => if mode.allow_external && h >= m.b as usize {
            Some(h - m.b as usize)
        } else {
            None
        },
        OpCode::Call => match summ[m.target_index] {
            Some(d) => Some(sat_add(h, d)),
            None => if mode.zero_missing {
                Some(h)
            } else {
                None
            },
        },
        OpCode::Jump | OpCode::Return | OpCode::Nop | OpCode::Halt => Some(h),
        _ => if h >= 2 {
            Some(h - 1)
        } else {
            None
        },
    }
}

/// Whether instruction `i` waits in the queue from `head` on.
pub open spec fn spec_pending(queue: Seq<usize>, head: int, i: int) -> bool {
    exists|k: int| head <= k < queue.len() && #[trigger] queue[k] == i
}

/// Whether height `o` is news for an instruction whose height is `cur`.
pub open spec fn spec_lowers(cur: Option<usize>, o: usize) -> bool {
    cur is None || o < cur.unwrap()
}

/// Offers height `o` to instruction `s`: where `s` has no height yet or a
/// greater one, `s` gets `o` and joins the queue.
fn relax(heights: &mut Vec<Option<usize>>, queue: &mut Vec<usize>, s: usize, o: usize)
    requires
        s < old(heights)@.len(),
    ensures
        spec_lowers(old(heights)@[s as int], o) ==> final(heights)@ == old(heights)@.update(
            s as int,
            Some(o),
        ) && final(queue)@ == old(queue)@.push(s) && spec_total(final(heights)@) < spec_total(
            old(heights)@,
        ),
        !spec_lowers(old(heights)@[s as int], o) ==> final(heights)@ == old(heights)@
            && final(queue)@ == old(queue)@,
{
    let lower = match heights[s] {
        None => true,
        Some(cur) => o < cur,
    };
    if lower {
        proof {
            lemma_total_update(heights@, s as int, Some(o));
        }
        heights.set(s, Some(o));
        queue.push(s);
    }
}

/// The analysis proper. Starting from `entry` at height zero, heights are
/// passed along the edges; where two paths meet, the smaller height stays.
/// Returns the greatest height assignment, or `None` where some instruction
/// cannot run at the height that reaches it, which is exactly where no height
/// assignment exists.
pub fn flow(nodes: &Vec<Meta>, summ: &Vec<Option<usize>>, mode: Mode, entry: usize) -> (res: Option<
    Vec<Option<usize>>,
>)
    requires
        spec_resolved(nodes@),
        summ@.len() == nodes@.len(),
        entry < nodes@.len(),
    ensures
        match res {
            Some(hs) => spec_is_flow(nodes@, summ@, mode, entry as int, hs@),
            None => !spec_has_cert(nodes@, summ@, mode, entry as int),
        },
{
    let n = nodes.len();
    let mut heights: Vec<Option<usize>> = Vec::new();
    let mut k: usize = 0;
    while k < n
        invariant
            k <= n,
            heights@.len() == k,
            forall|j: int| 0 <= j < k ==> heights@[j] is None,
        decreases n - k,
    {
        heights.push(None);
        k += 1;
    }
    heights.set(entry, Some(0));
    let mut queue: Vec<usize> = Vec::new();
    queue.push(entry);
    let mut head: usize = 0;
    proof {
        lemma_reach_entry(nodes@, entry as int);
        assert(queue@[0] == entry);
        assert(spec_pending(queue@, 0, entry as int));
    }
    while head < queue.len()
        invariant
            n == nodes@.len(),
            n == heights@.len(),
            n == summ@.len(),
            spec_resolved(nodes@),
            entry < n,
            head <= queue@.len(),
            forall|k: int|
                0 <= k < queue@.len() ==> (#[trigger] queue@[k]) < n
                    && heights@[queue@[k] as int] is Some,
            heights@[entry as int] == Some(0usize),
            forall|i: int|
                0 <= i < n && heights@[i] is Some ==> spec_pending(queue@, head as int, i)
                    || #[trigger] spec_settled(nodes@, summ@, mode, heights@, i),
            forall|other: Seq<Option<usize>>| #[trigger]
                spec_is_cert(nodes@, summ@, mode, entry as int, other) ==> spec_below(
                    other,
                    heights@,
                ),
            forall|i: int|
                0 <= i < n && (#[trigger] heights@[i]) is Some ==> spec_reachable(
                    nodes@,
                    entry as int,
                    i,
                ),
        decreases 2 * spec_total(heights@) + queue@.len() - head,
    {
        let i = queue[head];
        let ghost head0 = head as int;
        head = head + 1;
        let h = match heights[i] {
            Some(h) => h,
            None => 0,
        };
        let m = nodes[i];
        match effect(&m, h, summ, mode) {
            None => {
                proof {
                    assert forall|other: Seq<Option<usize>>| !spec_is_cert(
                        nodes@,
                        summ@,
                        mode,
                        entry as int,
                        other,
                    ) by {
                        if spec_is_cert(nodes@, summ@, mode, entry as int, other) {
                            assert(spec_below(other, heights@));
                            assert(heights@[i as int] is Some);
                            assert(spec_settled(nodes@, summ@, mode, other, i as int));
                            lemma_effect_monotone(m, other[i as int].unwrap(), h, summ@, mode);
                        }
                    }
                }
                return None;
            },
            Some(o) => {
                let ghost hs0 = heights@;
                let ghost q0 = queue@;
                if m.opcode == OpCode::Jump || m.opcode == OpCode::JumpIf || m.opcode
                    == OpCode::Call {
                    relax(&mut heights, &mut queue, m.target_index, o);
                }
                let ghost hs1 = heights@;
                let ghost q1 = queue@;
                let falls = match m.opcode {
                    OpCode::Halt | OpCode::Nop | OpCode::Return | OpCode::Jump => false,
                    _ => i + 1 < n,
                };
                if falls {
                    relax(&mut heights, &mut queue, i + 1, o);
                }
                proof {
                    let hs2 = heights@;
                    let q2 = queue@;
                    let ii = i as int;
                    let js = spec_jump_succ(nodes@, ii);
                    let ns = spec_next_succ(nodes@, ii);
                    lemma_total_nonneg(hs2);
                    // what the two offers changed
                    assert(forall|t: int|
                        0 <= t < n && hs0[t] is Some ==> hs2[t] is Some && hs2[t].unwrap()
                            <= hs0[t].unwrap());
                    assert(forall|t: int|
                        0 <= t < n && hs2[t] != hs0[t] ==> hs2[t] == Some(o) && (js == Some(t)
                            || ns == Some(t)));
                    assert(forall|k: int| 0 <= k < q0.len() ==> q2[k] == q0[k]);
                    assert forall|t: int| 0 <= t < n && hs2[t] != hs0[t] implies spec_pending(
                        q2,
                        head as int,
                        t,
                    ) by {
                        if hs1[t] != hs0[t] {
                            assert(q1 == q0.push(t as usize));
                            assert(q2[q0.len() as int] == t);
                        } else {
                            assert(q2 == q1.push(t as usize));
                            assert(q2[q1.len() as int] == t);
                        }
                    }
                    assert(spec_edge_ok(hs2, js, o));
                    assert(spec_edge_ok(hs2, ns, o));
                    assert forall|j: int| 0 <= j < n && hs2[j] is Some implies spec_pending(
                        q2,
                        head as int,
                        j,
                    ) || #[trigger] spec_settled(nodes@, summ@, mode, hs2, j) by {
                        if hs2[j] != hs0[j] {
                        } else if j == ii {
                            assert(spec_settled(nodes@, summ@, mode, hs2, j));
                        } else {
                            if spec_settled(nodes@, summ@, mode, hs0, j) {
                                assert(spec_settled(nodes@, summ@, mode, hs2, j));
                            } else {
                                assert(spec_pending(q0, head0, j));
                                let k = choose|k: int|
                                    head0 <= k < q0.len() && #[trigger] q0[k] == j;
                                assert(q2[k] == j);
                            }
                        }
                    }
                    assert forall|other: Seq<Option<usize>>| #[trigger]
                        spec_is_cert(nodes@, summ@, mode, entry as int, other) implies spec_below(
                        other,
                        hs2,
                    ) by {
                        assert(spec_below(other, hs0));
                        assert(hs0[ii] is Some);
                        assert(spec_settled(nodes@, summ@, mode, other, ii));
                        lemma_effect_monotone(m, other[ii].unwrap(), h, summ@, mode);
                        assert forall|t: int| 0 <= t < hs2.len() && (#[trigger] hs2[t])
                            is Some implies other[t] is Some && other[t].unwrap()
                            <= hs2[t].unwrap() by {
                            if hs2[t] == hs0[t] {
                                assert(hs0[t] is Some);
                            }
                        }
                    }
                    assert forall|t: int| 0 <= t < n && (#[trigger] hs2[t])
                        is Some implies spec_reachable(nodes@, entry as int, t) by {
                        if hs2[t] != hs0[t] {
                            assert(hs0[ii] is Some);
                            lemma_reach_step(nodes@, entry as int, ii, t);
                        } else {
                            assert(hs0[t] is Some);
                        }
                    }
                    assert forall|k: int| 0 <= k < q2.len() implies (#[trigger] q2[k]) < n
                        && hs2[q2[k] as int] is Some by {
                        if k < q0.len() {
                            assert(q2[k] == q0[k]);
                        }
                    }
                }
            },
        }
    }
    proof {
        assert forall|i: int| 0 <= i < n && heights@[i] is Some implies #[trigger] spec_settled(
            nodes@,
            summ@,
            mode,
            heights@,
            i,
        ) by {
            if spec_pending(queue@, head as int, i) {
            }
        }
    }
    Some(heights)
}

} // verus!
