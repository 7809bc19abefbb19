//! Writing a program file.

use vstd::prelude::*;
use crate::vm::value::Value;
use super::format::{
    spec_be32, spec_be64, spec_encodable, spec_encode, spec_encode_constant,
    spec_encode_constants, spec_encode_header, Parsed,
};
use super::loader::LoadedBytecode;

verus! {

/// The encoding of a sequence grows at its end by the encoding of the
/// constant that is appended.
pub proof fn lemma_encode_push(cs: Seq<Value>, v: Value)
    ensures
        spec_encode_constants(cs.push(v)) == spec_encode_constants(cs) + spec_encode_constant(v),
    decreases cs.len(),
{
    let more = cs.push(v);
    if cs.len() == 0 {
        assert(more.subrange(1, more.len() as int) =~= Seq::<Value>::empty());
        assert(spec_encode_constants(more.subrange(1, more.len() as int)) =~= Seq::<u8>::empty());
        assert(spec_encode_constants(more) =~= spec_encode_constant(v));
        assert(spec_encode_constants(cs) + spec_encode_constant(v) =~= spec_encode_constant(v));
    } else {
        let rest = cs.subrange(1, cs.len() as int);
        assert(more.subrange(1, more.len() as int) =~= rest.push(v));
        lemma_encode_push(rest, v);
        assert(spec_encode_constants(more) =~= spec_encode_constant(cs[0]) + (
        spec_encode_constants(rest) + spec_encode_constant(v)));
        assert(spec_encode_constants(cs) + spec_encode_constant(v) =~= spec_encode_constant(cs[0])
            + (spec_encode_constants(rest) + spec_encode_constant(v)));
    }
}

/// Appends the four bytes of `v`, most significant first.
pub fn push_be32(out: &mut Vec<u8>, v: u32)
    ensures
        final(out)@ == old(out)@ + spec_be32(v as int),
{
    out.push((v / 0x100_0000) as u8);
    out.push((v / 0x1_0000 % 0x100) as u8);
    out.push((v / 0x100 % 0x100) as u8);
    out.push((v % 0x100) as u8);
    assert(out@ =~= old(out)@ + spec_be32(v as int));
}

/// Appends the eight bytes of `v`, most significant first.
pub fn push_be64(out: &mut Vec<u8>, v: u64)
    ensures
        final(out)@ == old(out)@ + spec_be64(v as int),
{
    push_be32(out, (v / 0x1_0000_0000) as u32);
    push_be32(out, (v % 0x1_0000_0000) as u32);
    assert(out@ =~= old(out)@ + spec_be64(v as int));
}

/// Appends the encoding of one constant.
pub fn push_constant(out: &mut Vec<u8>, v: Value)
    ensures
        final(out)@ == old(out)@ + spec_encode_constant(v),
{
    match v {
        Value::Null => {
            out.push(0x00);
        },
        Value::Bool(b) => {
            out.push(0x01);
            out.push(if b { 1 } else { 0 });
        },
        Value::Number(n) => {
            out.push(0x02);
            push_be64(out, n);
        },
        Value::Ref(r) => {
            out.push(0xFF);
            push_be32(out, r);
        },
    }
    assert(out@ =~= old(out)@ + spec_encode_constant(v));
}

/// The program file for a bundle, or `None` where the entry point or one of
/// the two counts does not fit in 32 bits. The capabilities of the bundle are
/// not part of the file.
pub fn encode(bundle: &LoadedBytecode) -> (res: Option<Vec<u8>>)
    ensures
        match res {
            Some(bytes) => spec_encodable(bundle.parsed()) && bytes@ == spec_encode(
                bundle.parsed(),
            ),
            None => !spec_encodable(bundle.parsed()),
        },
{
    let count = bundle.constants.len();
    let ilen = bundle.instructions.len();
    if bundle.entry_point > 0xFFFF_FFFF || count > 0xFFFF_FFFF || ilen > 0xFFFF_FFFF {
        return None;
    }
    let mut out: Vec<u8> = Vec::new();
    push_be32(&mut out, 0x5659_4D41);
    out.push(1);
    out.push(0);
    out.push(0);
    out.push(0);
    push_be32(&mut out, bundle.entry_point as u32);
    push_be32(&mut out, count as u32);
    let ghost head = spec_encode_header(bundle.entry_point as int, count as int);
    assert(out@ =~= head);
    let mut i: usize = 0;
    assert(bundle.constants@.subrange(0, 0) =~= Seq::<Value>::empty());
    assert(out@ =~= head + spec_encode_constants(bundle.constants@.subrange(0, 0)));
    while i < count
        invariant
            i <= count,
            count == bundle.constants@.len(),
            out@ == head + spec_encode_constants(bundle.constants@.subrange(0, i as int)),
        decreases count - i,
    {
        let ghost done = bundle.constants@.subrange(0, i as int);
        let v = bundle.constants[i];
        push_constant(&mut out, v);
        proof {
            lemma_encode_push(done, v);
            assert(bundle.constants@.subrange(0, i + 1) =~= done.push(v));
            assert(out@ =~= head + spec_encode_constants(done.push(v)));
        }
        i += 1;
    }
    assert(bundle.constants@.subrange(0, count as int) =~= bundle.constants@);
    push_be32(&mut out, ilen as u32);
    let mut k: usize = 0;
    let ghost front = out@;
    assert(bundle.instructions@.subrange(0, 0) =~= Seq::<u8>::empty());
    assert(out@ =~= front + bundle.instructions@.subrange(0, 0));
    while k < ilen
        invariant
            k <= ilen,
            ilen == bundle.instructions@.len(),
            out@ == front + bundle.instructions@.subrange(0, k as int),
        decreases ilen - k,
    {
        out.push(bundle.instructions[k]);
        assert(out@ =~= front + bundle.instructions@.subrange(0, k + 1));
        k += 1;
    }
    assert(bundle.instructions@.subrange(0, ilen as int) =~= bundle.instructions@);
    Some(out)
}

/// The content of the sample program: the constant 3.14, pushed and handed
/// to an external call of capability 42, then a halt.
pub open spec fn spec_sample() -> Parsed {
    Parsed {
        constants: seq![Value::Number(0x4009_1EB8_51EB_851F)],
        instructions: seq![0x01u8, 0x00u8, 0x50u8, 42u8, 1u8, 0xFFu8],
        entry_point: 0,
    }
}

/// The file of a small sample program.
pub fn sample_bytecode() -> (bytes: Vec<u8>)
    ensures
        bytes@ == spec_encode(spec_sample()),
{
    let mut constants: Vec<Value> = Vec::new();
    constants.push(Value::Number(0x4009_1EB8_51EB_851F));
    let mut instructions: Vec<u8> = Vec::new();
    instructions.push(0x01);
    instructions.push(0x00);
    instructions.push(0x50);
    instructions.push(42);
    instructions.push(1);
    instructions.push(0xFF);
    let bundle = LoadedBytecode { constants, instructions, entry_point: 0, caps: Vec::new() };
    assert(bundle.parsed().constants =~= spec_sample().constants);
    assert(bundle.parsed().instructions =~= spec_sample().instructions);
    match encode(&bundle) {
        Some(bytes) => bytes,
        None => Vec::new(),
    }
}

} // verus!
