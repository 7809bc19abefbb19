//! Decoding the instruction stream and resolving branch targets.

use vstd::prelude::*;
use crate::bytecode::opcode::OpCode;
use crate::error::{VreError, VreResult};
use super::format::spec_u32_be;

verus! {

/// One decoded instruction.
#[derive(Debug, Clone, Copy)]
pub struct Meta {
    /// Offset of the opcode byte in the instruction stream.
    pub offset: usize,
    pub opcode: OpCode,
    /// First immediate byte, zero where there is none.
    pub a: u8,
    /// Second immediate byte, zero where there is none.
    pub b: u8,
    /// The target offset of a jump or call, zero for other instructions.
    pub target: usize,
    /// Position of the target among the decoded instructions, once resolved.
    pub target_index: usize,
}

/// Whether the opcode carries a target offset.
pub open spec fn spec_is_branch(op: OpCode) -> bool {
    op == OpCode::Jump || op == OpCode::JumpIf || op == OpCode::Call
}

/// The instruction that starts at `at`, with its target not yet resolved.
pub open spec fn spec_decode_one(code: Seq<u8>, at: int) -> Result<Meta, VreError> {
    match OpCode::spec_from_u8(code[at]) {
        None => Err(VreError::InvalidOpcode(code[at])),
        Some(op) => {
            if at + 1 + op.spec_imm_len() > code.len() {
                Err(VreError::MalformedBytecode)
            } else {
                Ok(
                    Meta {
                        offset: at as usize,
                        opcode: op,
                        a: if op.spec_imm_len() == 1 || op.spec_imm_len() == 2 {
                            code[at + 1]
                        } else {
                            0
                        },
                        b: if op.spec_imm_len() == 2 {
                            code[at + 2]
                        } else {
                            0
                        },
                        target: if op.spec_imm_len() == 4 {
                            spec_u32_be(code, at + 1) as usize
                        } else {
                            0
                        },
                        target_index: 0,
                    },
                )
            }
        },
    }
}

/// `acc` followed by the instructions decoded from `at` to the end of `code`.
pub open spec fn spec_decode(code: Seq<u8>, at: int, acc: Seq<Meta>) -> Result<Seq<Meta>, VreError>
    decreases code.len() - at,
{
    if at < 0 || at >= code.len() {
        Ok(acc)
    } else {
        match spec_decode_one(code, at) {
            Err(e) => Err(e),
            Ok(m) => spec_decode(code, at + 1 + m.opcode.spec_imm_len(), acc.push(m)),
        }
    }
}

/// Whether some instruction of `metas` starts at offset `off`.
pub open spec fn spec_is_start(metas: Seq<Meta>, off: int) -> bool {
    exists|i: int| 0 <= i < metas.len() && #[trigger] metas[i].offset == off
}

/// Whether every jump and call of `metas` before position `upto` goes to the
/// start of an instruction.
pub open spec fn spec_targets_valid(metas: Seq<Meta>, upto: int) -> bool {
    forall|i: int|
        0 <= i < upto && spec_is_branch(#[trigger] metas[i].opcode) ==> spec_is_start(
            metas,
            metas[i].target as int,
        )
}

/// Whether each jump and call of `nodes` knows the position of its target.
pub open spec fn spec_resolved(nodes: Seq<Meta>) -> bool {
    forall|i: int|
        0 <= i < nodes.len() && spec_is_branch(#[trigger] nodes[i].opcode) ==> 0
            <= nodes[i].target_index < nodes.len() && nodes[nodes[i].target_index as int].offset
            == nodes[i].target
}

/// Instruction `i` of `metas` with the position of its target filled in.
pub open spec fn spec_resolve_one(metas: Seq<Meta>, i: int) -> Meta {
    if spec_is_branch(metas[i].opcode) {
        Meta {
            offset: metas[i].offset,
            opcode: metas[i].opcode,
            a: metas[i].a,
            b: metas[i].b,
            target: metas[i].target,
            target_index: (choose|t: int|
                0 <= t < metas.len() && #[trigger] metas[t].offset == metas[i].target) as usize,
        }
    } else {
        metas[i]
    }
}

/// `metas` with the position of each target filled in.
pub open spec fn spec_resolve(metas: Seq<Meta>) -> Seq<Meta> {
    Seq::new(metas.len(), |i: int| spec_resolve_one(metas, i))
}

/// The first instruction whose target is not the start of an instruction.
pub open spec fn spec_first_bad(metas: Seq<Meta>) -> int {
    choose|i: int|
        0 <= i < metas.len() && spec_targets_valid(metas, i) && spec_is_branch(
            #[trigger] metas[i].opcode,
        ) && !spec_is_start(metas, metas[i].target as int)
}

/// Whether instruction `i` of `metas` decodes at its offset in `code` and
/// ends where the next one starts, or at `end` if it is the last.
pub open spec fn spec_placed(code: Seq<u8>, metas: Seq<Meta>, end: int, i: int) -> bool {
    &&& 0 <= metas[i].offset < code.len()
    &&& spec_decode_one(code, metas[i].offset as int) == Ok::<Meta, VreError>(metas[i])
    &&& metas[i].offset + 1 + metas[i].opcode.spec_imm_len() == (if i + 1 < metas.len() {
        metas[i + 1].offset as int
    } else {
        end
    })
}

/// Whether `metas` lies in `code` without gap from offset zero to `end`.
pub open spec fn spec_laid_out(code: Seq<u8>, metas: Seq<Meta>, end: int) -> bool {
    &&& metas.len() == 0 ==> end == 0
    &&& metas.len() > 0 ==> metas[0].offset == 0
    &&& forall|i: int| 0 <= i < metas.len() ==> #[trigger] spec_placed(code, metas, end, i)
}

/// What decoding adds to instructions that lie in the code without gap lies
/// there without gap, and reaches the end of the code.
pub proof fn lemma_decode_layout(code: Seq<u8>, at: int, acc: Seq<Meta>)
    requires
        code.len() <= usize::MAX,
        0 <= at <= code.len(),
        spec_laid_out(code, acc, at),
        spec_decode(code, at, acc) is Ok,
    ensures
        spec_laid_out(code, spec_decode(code, at, acc).unwrap(), code.len() as int),
    decreases code.len() - at,
{
    if at < code.len() {
        let m = spec_decode_one(code, at).unwrap();
        let more = acc.push(m);
        let next = at + 1 + m.opcode.spec_imm_len();
        assert(m.offset == at);
        assert forall|i: int| 0 <= i < more.len() implies #[trigger] spec_placed(
            code,
            more,
            next,
            i,
        ) by {
            if i < acc.len() {
                assert(spec_placed(code, acc, at, i));
                assert(more[i] == acc[i]);
                if i + 1 < acc.len() {
                    assert(more[i + 1] == acc[i + 1]);
                }
            }
        }
        assert(more.len() > 0 ==> more[0].offset == 0) by {
            if acc.len() > 0 {
                assert(more[0] == acc[0]);
            }
        }
        lemma_decode_layout(code, next, more);
    }
}

/// In code that decodes, the decoded instructions lie without gap from the
/// start to the end.
pub proof fn lemma_decoded_is_laid_out(code: Seq<u8>)
    requires
        code.len() <= usize::MAX,
        spec_decode(code, 0, Seq::empty()) is Ok,
    ensures
        spec_laid_out(code, spec_decode(code, 0, Seq::empty()).unwrap(), code.len() as int),
{
    lemma_decode_layout(code, 0, Seq::empty());
}

/// An instruction starts no earlier than its position among the
/// instructions.
pub proof fn lemma_offset_at_least_index(code: Seq<u8>, metas: Seq<Meta>, end: int, i: int)
    requires
        spec_laid_out(code, metas, end),
        0 <= i < metas.len(),
    ensures
        metas[i].offset >= i,
    decreases i,
{
    if i > 0 {
        lemma_offset_at_least_index(code, metas, end, i - 1);
        assert(spec_placed(code, metas, end, i - 1));
    }
}

/// Where every target is the start of an instruction, resolving gives each
/// jump and call the position of its target.
pub proof fn lemma_resolve_resolves(code: Seq<u8>, metas: Seq<Meta>, end: int)
    requires
        code.len() <= usize::MAX,
        spec_laid_out(code, metas, end),
        spec_targets_valid(metas, metas.len() as int),
    ensures
        spec_resolved(spec_resolve(metas)),
{
    let nodes = spec_resolve(metas);
    assert forall|i: int|
        0 <= i < nodes.len() && spec_is_branch(#[trigger] nodes[i].opcode) implies 0
        <= nodes[i].target_index < nodes.len() && nodes[nodes[i].target_index as int].offset
        == nodes[i].target by {
        assert(nodes[i] == spec_resolve_one(metas, i));
        assert(spec_is_branch(metas[i].opcode));
        assert(spec_is_start(metas, metas[i].target as int));
        let t = choose|t: int|
            0 <= t < metas.len() && #[trigger] metas[t].offset == metas[i].target;
        lemma_offset_at_least_index(code, metas, end, t);
        assert(spec_placed(code, metas, end, t));
        assert(nodes[t] == spec_resolve_one(metas, t));
    }
}

/// Marker in the offset table for "no instruction starts here".
pub const NO_INDEX: usize = usize::MAX;

/// The decoded instructions together with a table from offsets to positions.
pub struct Decoded {
    pub metas: Vec<Meta>,
    /// For each offset of the stream the position of the instruction that
    /// starts there, or `NO_INDEX`.
    pub index_of: Vec<usize>,
}

impl Decoded {
    /// The table is exact for the instructions that were decoded.
    pub open spec fn wf(&self) -> bool {
        &&& forall|off: int|
            0 <= off < self.index_of@.len() && #[trigger] self.index_of@[off] != NO_INDEX ==> 0
                <= self.index_of@[off] < self.metas@.len()
                && self.metas@[self.index_of@[off] as int].offset == off
        &&& forall|i: int|
            0 <= i < self.metas@.len() ==> 0 <= (#[trigger] self.metas@[i]).offset
                < self.index_of@.len() && self.index_of@[self.metas@[i].offset as int] == i
    }
}

/// Reads the big-endian number in the four bytes from `at`.
pub fn u32_be_at(code: &[u8], at: usize) -> (v: u32)
    requires
        at + 4 <= code@.len(),
    ensures
        v == spec_u32_be(code@, at as int),
{
    let b0 = code[at] as u32;
    let b1 = code[at + 1] as u32;
    let b2 = code[at + 2] as u32;
    let b3 = code[at + 3] as u32;
    b0 * 0x100_0000 + b1 * 0x1_0000 + b2 * 0x100 + b3
}

/// Pass one: decodes the whole stream, instruction after instruction.
///
/// An unknown opcode byte is reported with the byte; an instruction whose
/// immediate bytes run past the end makes the stream malformed.
pub fn decode(code: &[u8]) -> (res: VreResult<Decoded>)
    ensures
        match res {
            Ok(d) => spec_decode(code@, 0, Seq::empty()) == Ok::<Seq<Meta>, VreError>(d.metas@)
                && d.wf() && d.index_of@.len() == code@.len(),
            Err(e) => spec_decode(code@, 0, Seq::empty()) == Err::<Seq<Meta>, VreError>(e),
        },
{
    let mut metas: Vec<Meta> = Vec::new();
    let mut index_of: Vec<usize> = Vec::new();
    let mut at: usize = 0;
    while at < code.len()
        invariant
            at <= code@.len(),
            index_of@.len() == at,
            spec_decode(code@, 0, Seq::empty()) == spec_decode(code@, at as int, metas@),
            metas@.len() <= at,
            forall|off: int|
                0 <= off < index_of@.len() && #[trigger] index_of@[off] != NO_INDEX ==> 0
                    <= index_of@[off] < metas@.len() && metas@[index_of@[off] as int].offset
                    == off,
            forall|i: int|
                0 <= i < metas@.len() ==> 0 <= (#[trigger] metas@[i]).offset < index_of@.len()
                    && index_of@[metas@[i].offset as int] == i,
        decreases code@.len() - at,
    {
        let byte = code[at];
        let op = match OpCode::from_u8(byte) {
            Some(op) => op,
            None => {
                return Err(VreError::InvalidOpcode(byte));
            },
        };
        let imm = op.imm_len();
        if imm > code.len() - at - 1 {
            return Err(VreError::MalformedBytecode);
        }
        let a: u8 = if imm == 1 || imm == 2 {
            code[at + 1]
        } else {
            0
        };
        let b: u8 = if imm == 2 {
            code[at + 2]
        } else {
            0
        };
        let target: usize = if imm == 4 {
            u32_be_at(code, at + 1) as usize
        } else {
            0
        };
        let m = Meta { offset: at, opcode: op, a, b, target, target_index: 0 };
        assert(spec_decode_one(code@, at as int) == Ok::<Meta, VreError>(m));
        let ghost old_metas = metas@;
        let ghost old_index = index_of@;
        index_of.push(metas.len());
        metas.push(m);
        let mut k: usize = 0;
        while k < imm
            invariant
                k <= imm,
                at + 1 + imm <= code@.len(),
                index_of@.len() == at + 1 + k,
                forall|off: int| 0 <= off <= at ==> index_of@[off] == old_index.push(
                    (metas@.len() - 1) as usize,
                )[off],
                forall|off: int| at < off < index_of@.len() ==> index_of@[off] == NO_INDEX,
            decreases imm - k,
        {
            index_of.push(NO_INDEX);
            k += 1;
        }
        at = at + 1 + imm;
    }
    Ok(Decoded { metas, index_of })
}

/// Pass two: checks that every jump and call goes to the start of an
/// instruction, and records the position of each target.
///
/// The first instruction with a bad target is reported, with that target.
pub fn resolve(d: Decoded) -> (res: VreResult<Vec<Meta>>)
    requires
        d.wf(),
    ensures
        match res {
            Ok(nodes) => spec_targets_valid(d.metas@, d.metas@.len() as int) && nodes@
                == spec_resolve(d.metas@) && spec_resolved(nodes@),
            Err(e) => !spec_targets_valid(d.metas@, d.metas@.len() as int) && e
                == VreError::InvalidJumpTarget(d.metas@[spec_first_bad(d.metas@)].target),
        },
{
    let mut nodes: Vec<Meta> = Vec::new();
    let n = d.metas.len();
    let mut i: usize = 0;
    while i < n
        invariant
            d.wf(),
            n == d.metas@.len(),
            i <= n,
            nodes@.len() == i,
            spec_targets_valid(d.metas@, i as int),
            forall|j: int| 0 <= j < i ==> #[trigger] nodes@[j] == spec_resolve_one(d.metas@, j),
            forall|j: int|
                0 <= j < i && spec_is_branch(#[trigger] nodes@[j].opcode) ==> 0
                    <= nodes@[j].target_index < n && d.metas@[nodes@[j].target_index as int].offset
                    == nodes@[j].target,
        decreases n - i,
    {
        let m = d.metas[i];
        let mut node = m;
        if m.opcode == OpCode::Jump || m.opcode == OpCode::JumpIf || m.opcode == OpCode::Call {
            if m.target >= d.index_of.len() || d.index_of[m.target] == NO_INDEX {
                proof {
                    if spec_is_start(d.metas@, m.target as int) {
                        let w = choose|w: int|
                            0 <= w < d.metas@.len() && #[trigger] d.metas@[w].offset == m.target;
                        assert(d.index_of@[d.metas@[w].offset as int] == w);
                    }
                    assert(spec_is_branch(d.metas@[i as int].opcode));
                    let f = spec_first_bad(d.metas@);
                    if f < i {
                        assert(spec_is_branch(d.metas@[f].opcode));
                    } else if i < f {
                        assert(spec_is_branch(d.metas@[i as int].opcode));
                    }
                }
                return Err(VreError::InvalidJumpTarget(m.target));
            }
            node.target_index = d.index_of[m.target];
            proof {
                assert(d.metas@[node.target_index as int].offset == m.target);
                let t = choose|t: int|
                    0 <= t < d.metas@.len() && #[trigger] d.metas@[t].offset == m.target;
                assert(d.index_of@[d.metas@[t].offset as int] == t);
            }
        }
        assert(node == spec_resolve_one(d.metas@, i as int));
        nodes.push(node);
        i += 1;
    }
    proof {
        assert forall|j: int|
            0 <= j < nodes@.len() && spec_is_branch(#[trigger] nodes@[j].opcode) implies 0
            <= nodes@[j].target_index < nodes@.len() && nodes@[nodes@[j].target_index as int].offset
            == nodes@[j].target by {
            let t = nodes@[j].target_index as int;
            assert(nodes@[t] == spec_resolve_one(d.metas@, t));
            assert(nodes@[j] == spec_resolve_one(d.metas@, j));
        }
        assert(nodes@ =~= spec_resolve(d.metas@));
    }
    Ok(nodes)
}

} // verus!
