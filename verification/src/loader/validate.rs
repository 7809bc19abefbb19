//! The static validator: decoding, branch targets, callee summaries and the
//! analysis of the whole program.

use vstd::prelude::*;
use crate::bytecode::opcode::OpCode;
use crate::error::{VreError, VreResult};
use super::decode::{
    decode, resolve, spec_decode, spec_first_bad, spec_resolve, spec_targets_valid, Meta,
};
use super::flow::{
    flow, lemma_cert_covers_path, spec_has_cert, spec_is_cert, spec_is_path, spec_reachable,
    Mode,
};
use super::summary::{spec_is_call_target, spec_summaries, summarize};

verus! {

/// The mode of the analysis of the whole program.
pub open spec fn spec_global() -> Mode {
    Mode { allow_external: true, zero_missing: false }
}

/// Whether every callee has a summary.
pub open spec fn spec_all_summarized(nodes: Seq<Meta>, summ: Seq<Option<usize>>) -> bool {
    forall|t: int|
        0 <= t < nodes.len() && #[trigger] spec_is_call_target(nodes, t) ==> summ[t] is Some
}

/// Whether the program passes the stack-height analysis: every callee has a
/// summary, and the code from the first instruction on, entered with an empty
/// stack, has a height assignment. A program without instructions passes.
pub open spec fn spec_accepts(nodes: Seq<Meta>) -> bool {
    &&& spec_all_summarized(nodes, spec_summaries(nodes))
    &&& nodes.len() == 0 || spec_has_cert(nodes, spec_summaries(nodes), spec_global(), 0)
}

/// The decoded program if the instruction stream `code` is valid, or the
/// reason why it is not.
pub open spec fn spec_validate(code: Seq<u8>) -> Result<Seq<Meta>, VreError> {
    match spec_decode(code, 0, Seq::empty()) {
        Err(e) => Err(e),
        Ok(metas) => {
            if !spec_targets_valid(metas, metas.len() as int) {
                Err(VreError::InvalidJumpTarget(metas[spec_first_bad(metas)].target))
            } else if spec_accepts(spec_resolve(metas)) {
                Ok(spec_resolve(metas))
            } else {
                Err(VreError::MalformedBytecode)
            }
        },
    }
}

/// Whether an external call that control can reach from the first
/// instruction names capability `c`.
pub open spec fn spec_cap_reached(nodes: Seq<Meta>, c: u8) -> bool {
    exists|i: int|
        0 <= i < nodes.len() && (#[trigger] nodes[i]).opcode == OpCode::ExternalCall && nodes[i].a
            == c && spec_reachable(nodes, 0, i)
}

/// Whether any external call in the stream names capability `c`.
pub open spec fn spec_cap_named(nodes: Seq<Meta>, c: u8) -> bool {
    exists|i: int|
        0 <= i < nodes.len() && (#[trigger] nodes[i]).opcode == OpCode::ExternalCall && nodes[i].a
            == c
}

/// Whether an external call that is counted names capability `c`. With `all`
/// every instruction counts, otherwise those to which `hs` gives a height.
pub open spec fn spec_cap_counted(nodes: Seq<Meta>, hs: Seq<Option<usize>>, all: bool, c: u8) -> bool {
    exists|i: int|
        0 <= i < nodes.len() && (#[trigger] nodes[i]).opcode == OpCode::ExternalCall && nodes[i].a
            == c && (all || hs[i] is Some)
}

/// Whether the numbers stand in strictly ascending order.
pub open spec fn spec_ascending(caps: Seq<u8>) -> bool {
    forall|i: int, j: int| 0 <= i < j < caps.len() ==> caps[i] < caps[j]
}

/// The capability ids of the counted external calls, ascending and each once.
pub fn caps_where(nodes: &Vec<Meta>, hs: &Vec<Option<usize>>, all: bool) -> (caps: Vec<u8>)
    requires
        all || hs@.len() == nodes@.len(),
    ensures
        spec_ascending(caps@),
        forall|c: u8| caps@.contains(c) <==> spec_cap_counted(nodes@, hs@, all, c),
{
    let n = nodes.len();
    let mut table: Vec<bool> = Vec::new();
    let mut k: usize = 0;
    while k < 256
        invariant
            k <= 256,
            table@.len() == k,
            forall|j: int| 0 <= j < k ==> !table@[j],
        decreases 256 - k,
    {
        table.push(false);
        k += 1;
    }
    let mut i: usize = 0;
    while i < n
        invariant
            i <= n,
            n == nodes@.len(),
            all || hs@.len() == n,
            table@.len() == 256,
            forall|c: u8| #[trigger]
                table@[c as int] <==> exists|j: int|
                    0 <= j < i && (#[trigger] nodes@[j]).opcode == OpCode::ExternalCall
                        && nodes@[j].a == c && (all || hs@[j] is Some),
        decreases n - i,
    {
        let m = nodes[i];
        let counted = all || match hs[i] {
            Some(_) => true,
            None => false,
        };
        if counted && m.opcode == OpCode::ExternalCall {
            let ghost before = table@;
            table.set(m.a as usize, true);
            assert forall|c: u8| #[trigger] table@[c as int] <==> exists|j: int|
                0 <= j < i + 1 && (#[trigger] nodes@[j]).opcode == OpCode::ExternalCall
                    && nodes@[j].a == c && (all || hs@[j] is Some) by {
                if c == m.a {
                    assert(nodes@[i as int].opcode == OpCode::ExternalCall);
                } else {
                    assert(table@[c as int] == before[c as int]);
                }
            }
        }
        i += 1;
    }
    let mut caps: Vec<u8> = Vec::new();
    let mut c: usize = 0;
    while c < 256
        invariant
            c <= 256,
            table@.len() == 256,
            spec_ascending(caps@),
            forall|j: int| 0 <= j < caps@.len() ==> (#[trigger] caps@[j]) < c,
            forall|x: u8| caps@.contains(x) <==> x < c && table@[x as int],
        decreases 256 - c,
    {
        if table[c] {
            let ghost before = caps@;
            caps.push(c as u8);
            assert forall|x: u8| caps@.contains(x) <==> x < c + 1 && table@[x as int] by {
                if caps@.contains(x) {
                    let j = choose|j: int| 0 <= j < caps@.len() && caps@[j] == x;
                    if j < before.len() {
                        assert(before[j] == x);
                        assert(before.contains(x));
                    }
                }
                if x < c + 1 && table@[x as int] {
                    if x < c {
                        assert(before.contains(x));
                        let j = choose|j: int| 0 <= j < before.len() && before[j] == x;
                        assert(caps@[j] == x);
                    } else {
                        assert(caps@[before.len() as int] == x);
                    }
                }
            }
        }
        c += 1;
    }
    assert forall|x: u8| caps@.contains(x) <==> spec_cap_counted(nodes@, hs@, all, x) by {
        assert(caps@.contains(x) <==> table@[x as int]);
    }
    caps
}

/// Passes one to four on an instruction stream. Returns the capability ids
/// of the reachable external calls.
///
/// Fails with the decoding error, with the first bad jump target, or with
/// `MalformedBytecode` where the stack-height analysis rejects the program.
pub fn validate(code: &[u8]) -> (res: VreResult<Vec<u8>>)
    ensures
        match res {
            Ok(caps) => match spec_validate(code@) {
                Ok(nodes) => spec_ascending(caps@) && forall|c: u8|
                    caps@.contains(c) <==> spec_cap_reached(nodes, c),
                Err(_) => false,
            },
            Err(e) => spec_validate(code@) == Err::<Seq<Meta>, VreError>(e),
        },
{
    let d = match decode(code) {
        Ok(d) => d,
        Err(e) => {
            return Err(e);
        },
    };
    let ghost metas = d.metas@;
    let nodes = match resolve(d) {
        Ok(nodes) => nodes,
        Err(e) => {
            return Err(e);
        },
    };
    let n = nodes.len();
    let summ = summarize(&nodes);
    let targets = super::summary::call_targets(&nodes);
    let mut t: usize = 0;
    while t < n
        invariant
            t <= n,
            n == nodes@.len(),
            n == summ@.len(),
            targets@ == super::summary::spec_call_targets(nodes@),
            summ@ == spec_summaries(nodes@),
            spec_decode(code@, 0, Seq::empty()) == Ok::<Seq<Meta>, VreError>(metas),
            spec_targets_valid(metas, metas.len() as int),
            nodes@ == spec_resolve(metas),
            forall|j: int|
                0 <= j < t && #[trigger] spec_is_call_target(nodes@, j) ==> summ@[j] is Some,
        decreases n - t,
    {
        let missing = match summ[t] {
            None => targets[t],
            Some(_) => false,
        };
        if missing {
            assert(spec_is_call_target(nodes@, t as int));
            return Err(VreError::MalformedBytecode);
        }
        t += 1;
    }
    if n == 0 {
        let empty: Vec<Option<usize>> = Vec::new();
        let caps = caps_where(&nodes, &empty, false);
        return Ok(caps);
    }
    let mode = Mode { allow_external: true, zero_missing: false };
    match flow(&nodes, &summ, mode, 0) {
        None => Err(VreError::MalformedBytecode),
        Some(hs) => {
            let caps = caps_where(&nodes, &hs, false);
            proof {
                assert(spec_is_cert(nodes@, summ@, mode, 0, hs@));
                assert forall|c: u8| caps@.contains(c) <==> spec_cap_reached(nodes@, c) by {
                    if spec_cap_reached(nodes@, c) {
                        let i = choose|i: int|
                            0 <= i < nodes@.len() && (#[trigger] nodes@[i]).opcode
                                == OpCode::ExternalCall && nodes@[i].a == c && spec_reachable(
                                nodes@,
                                0,
                                i,
                            );
                        let p = choose|p: Seq<int>| #[trigger]
                            spec_is_path(nodes@, 0, p) && p.last() == i;
                        lemma_cert_covers_path(nodes@, summ@, mode, 0, hs@, p);
                        assert(spec_cap_counted(nodes@, hs@, false, c));
                    }
                    if spec_cap_counted(nodes@, hs@, false, c) {
                        let i = choose|i: int|
                            0 <= i < nodes@.len() && (#[trigger] nodes@[i]).opcode
                                == OpCode::ExternalCall && nodes@[i].a == c && (false
                                || hs@[i] is Some);
                        assert(hs@[i] is Some);
                        assert(spec_reachable(nodes@, 0, i));
                    }
                }
            }
            Ok(caps)
        },
    }
}

/// The capability ids that the external calls of a decodable stream name,
/// reachable or not.
pub fn named_caps(code: &[u8]) -> (res: VreResult<Vec<u8>>)
    ensures
        match res {
            Ok(caps) => match spec_decode(code@, 0, Seq::empty()) {
                Ok(metas) => spec_ascending(caps@) && forall|c: u8|
                    caps@.contains(c) <==> spec_cap_named(metas, c),
                Err(_) => false,
            },
            Err(e) => spec_decode(code@, 0, Seq::empty()) == Err::<Seq<Meta>, VreError>(e),
        },
{
    match decode(code) {
        Err(e) => Err(e),
        Ok(d) => {
            let empty: Vec<Option<usize>> = Vec::new();
            let caps = caps_where(&d.metas, &empty, true);
            proof {
                assert forall|c: u8| caps@.contains(c) <==> spec_cap_named(d.metas@, c) by {
                    assert(spec_cap_counted(d.metas@, empty@, true, c) <==> spec_cap_named(
                        d.metas@,
                        c,
                    ));
                }
            }
            Ok(caps)
        },
    }
}

} // verus!
