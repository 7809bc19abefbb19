//! The byte layout of a program file, as a mathematical function on bytes.
//!
//! All multi-byte fields are big-endian. The file is a 16-byte header (magic,
//! version, reserved byte, entry point, constant count), the tagged constants,
//! a 4-byte instruction length and that many instruction bytes.

use vstd::prelude::*;
use crate::error::VreError;
use crate::vm::value::Value;

verus! {

/// The magic number, "VYMA".
pub const BYTECODE_MAGIC: u32 = 0x5659_4D41;

/// The only major version that is accepted.
pub const VERSION_MAJOR: u8 = 1;

/// Size of the fixed header.
pub const MIN_FILE_SIZE: usize = 16;

/// The big-endian number in the four bytes of `s` from `at`.
pub open spec fn spec_u32_be(s: Seq<u8>, at: int) -> int {
    s[at] as int * 0x100_0000 + s[at + 1] as int * 0x1_0000 + s[at + 2] as int * 0x100 + s[at
        + 3] as int
}

/// The big-endian number in the eight bytes of `s` from `at`.
pub open spec fn spec_u64_be(s: Seq<u8>, at: int) -> int {
    spec_u32_be(s, at) * 0x1_0000_0000 + spec_u32_be(s, at + 4)
}

/// The constant encoded at `at` and the position behind it.
pub open spec fn spec_read_constant(s: Seq<u8>, at: int) -> Result<(Value, int), VreError> {
    if at >= s.len() {
        Err(VreError::BytecodeTooShort)
    } else if s[at] == 0x00 {
        Ok((Value::Null, at + 1))
    } else if s[at] == 0x01 {
        if at + 2 > s.len() {
            Err(VreError::BytecodeTooShort)
        } else {
            Ok((Value::Bool(s[at + 1] != 0), at + 2))
        }
    } else if s[at] == 0x02 {
        if at + 9 > s.len() {
            Err(VreError::BytecodeTooShort)
        } else {
            Ok((Value::Number(spec_u64_be(s, at + 1) as u64), at + 9))
        }
    } else if s[at] == 0xFF {
        if at + 5 > s.len() {
            Err(VreError::BytecodeTooShort)
        } else {
            Ok((Value::Ref(spec_u32_be(s, at + 1) as u32), at + 5))
        }
    } else {
        Err(VreError::MalformedBytecode)
    }
}

/// `acc` followed by the next `remaining` constants from `at`, and the
/// position behind the last of them.
pub open spec fn spec_read_constants(s: Seq<u8>, at: int, remaining: nat, acc: Seq<Value>) -> Result<
    (Seq<Value>, int),
    VreError,
>
    decreases remaining,
{
    if remaining == 0 {
        Ok((acc, at))
    } else {
        match spec_read_constant(s, at) {
            Err(e) => Err(e),
            Ok((v, next)) => spec_read_constants(s, next, (remaining - 1) as nat, acc.push(v)),
        }
    }
}

/// What a program file holds.
pub struct Parsed {
    pub constants: Seq<Value>,
    pub instructions: Seq<u8>,
    pub entry_point: int,
}

/// The content of the file `s`, or the reason why it is not a program file.
pub open spec fn spec_parse(s: Seq<u8>) -> Result<Parsed, VreError> {
    if s.len() < 16 {
        Err(VreError::BytecodeTooShort)
    } else if spec_u32_be(s, 0) != 0x5659_4D41 {
        Err(VreError::InvalidMagicNumber)
    } else if s[4] != 1 {
        Err(VreError::InvalidBytecodeVersion)
    } else {
        match spec_read_constants(s, 16, spec_u32_be(s, 12) as nat, Seq::empty()) {
            Err(e) => Err(e),
            Ok((constants, at)) => {
                if at + 4 > s.len() {
                    Err(VreError::BytecodeTooShort)
                } else if at + 4 + spec_u32_be(s, at) > s.len() {
                    Err(VreError::BytecodeTooShort)
                } else {
                    Ok(
                        Parsed {
                            constants,
                            instructions: s.subrange(at + 4, at + 4 + spec_u32_be(s, at)),
                            entry_point: spec_u32_be(s, 8),
                        },
                    )
                }
            },
        }
    }
}

/// The four bytes of `n`, most significant first.
pub open spec fn spec_be32(n: int) -> Seq<u8> {
    seq![
        (n / 0x100_0000 % 0x100) as u8,
        (n / 0x1_0000 % 0x100) as u8,
        (n / 0x100 % 0x100) as u8,
        (n % 0x100) as u8,
    ]
}

/// The eight bytes of `n`, most significant first.
pub open spec fn spec_be64(n: int) -> Seq<u8> {
    spec_be32(n / 0x1_0000_0000) + spec_be32(n % 0x1_0000_0000)
}

/// The bytes that encode one constant.
pub open spec fn spec_encode_constant(v: Value) -> Seq<u8> {
    match v {
        Value::Null => seq![0x00u8],
        Value::Bool(b) => seq![0x01u8, if b { 1u8 } else { 0u8 }],
        Value::Number(n) => seq![0x02u8] + spec_be64(n as int),
        Value::Ref(r) => seq![0xFFu8] + spec_be32(r as int),
    }
}

/// The bytes that encode the constants `cs` one after another.
pub open spec fn spec_encode_constants(cs: Seq<Value>) -> Seq<u8>
    decreases cs.len(),
{
    if cs.len() == 0 {
        Seq::empty()
    } else {
        spec_encode_constant(cs[0]) + spec_encode_constants(cs.subrange(1, cs.len() as int))
    }
}

/// The sixteen bytes of the header, with minor version, patch version and
/// reserved byte zero.
pub open spec fn spec_encode_header(entry_point: int, constant_count: int) -> Seq<u8> {
    spec_be32(0x5659_4D41) + seq![1u8, 0u8, 0u8, 0u8] + spec_be32(entry_point) + spec_be32(
        constant_count,
    )
}

/// The program file for the given content.
pub open spec fn spec_encode(p: Parsed) -> Seq<u8> {
    spec_encode_header(p.entry_point, p.constants.len() as int) + spec_encode_constants(
        p.constants,
    ) + spec_be32(p.instructions.len() as int) + p.instructions
}

/// Whether the content can be written as a program file: entry point and
/// both counts fit in 32 bits.
pub open spec fn spec_encodable(p: Parsed) -> bool {
    &&& 0 <= p.entry_point < 0x1_0000_0000
    &&& p.constants.len() < 0x1_0000_0000
    &&& p.instructions.len() < 0x1_0000_0000
}

/// A part of a piece of `s` is a piece of `s`.
proof fn lemma_piece(s: Seq<u8>, at: int, whole: Seq<u8>, skip: int, part: Seq<u8>)
    requires
        0 <= at,
        at + whole.len() <= s.len(),
        s.subrange(at, at + whole.len()) == whole,
        0 <= skip,
        skip + part.len() <= whole.len(),
        whole.subrange(skip, skip + part.len()) == part,
    ensures
        s.subrange(at + skip, at + skip + part.len()) == part,
{
    assert(s.subrange(at + skip, at + skip + part.len()) =~= s.subrange(
        at,
        at + whole.len(),
    ).subrange(skip, skip + part.len()));
}

/// Reading four bytes that were written for `n` gives `n` back.
pub proof fn lemma_be32_roundtrip(s: Seq<u8>, at: int, n: int)
    requires
        0 <= n < 0x1_0000_0000,
        0 <= at,
        at + 4 <= s.len(),
        s.subrange(at, at + 4) == spec_be32(n),
    ensures
        spec_u32_be(s, at) == n,
{
    let piece = s.subrange(at, at + 4);
    assert(piece[0] == s[at] && piece[1] == s[at + 1] && piece[2] == s[at + 2] && piece[3] == s[at
        + 3]);
}

/// Reading eight bytes that were written for `n` gives `n` back.
pub proof fn lemma_be64_roundtrip(s: Seq<u8>, at: int, n: int)
    requires
        0 <= n < 0x1_0000_0000_0000_0000,
        0 <= at,
        at + 8 <= s.len(),
        s.subrange(at, at + 8) == spec_be64(n),
    ensures
        spec_u64_be(s, at) == n,
{
    let hi = spec_be32(n / 0x1_0000_0000);
    let lo = spec_be32(n % 0x1_0000_0000);
    assert((hi + lo).subrange(0, 4) =~= hi);
    assert((hi + lo).subrange(4, 8) =~= lo);
    lemma_piece(s, at, hi + lo, 0, hi);
    lemma_piece(s, at, hi + lo, 4, lo);
    lemma_be32_roundtrip(s, at, n / 0x1_0000_0000);
    lemma_be32_roundtrip(s, at + 4, n % 0x1_0000_0000);
}

/// Reading a constant that was written gives the constant back.
pub proof fn lemma_constant_roundtrip(s: Seq<u8>, at: int, v: Value)
    requires
        0 <= at,
        at + spec_encode_constant(v).len() <= s.len(),
        s.subrange(at, at + spec_encode_constant(v).len()) == spec_encode_constant(v),
    ensures
        spec_read_constant(s, at) == Ok::<(Value, int), VreError>(
            (v, at + spec_encode_constant(v).len()),
        ),
{
    let e = spec_encode_constant(v);
    let piece = s.subrange(at, at + e.len());
    assert(piece[0] == s[at]);
    match v {
        Value::Null => {},
        Value::Bool(b) => {
            assert(piece[1] == s[at + 1]);
        },
        Value::Number(n) => {
            let tail = spec_be64(n as int);
            assert(e.subrange(1, 9) =~= tail);
            lemma_piece(s, at, e, 1, tail);
            lemma_be64_roundtrip(s, at + 1, n as int);
        },
        Value::Ref(r) => {
            let tail = spec_be32(r as int);
            assert(e.subrange(1, 5) =~= tail);
            lemma_piece(s, at, e, 1, tail);
            lemma_be32_roundtrip(s, at + 1, r as int);
        },
    }
}

/// Reading constants that were written one after another gives them back.
pub proof fn lemma_constants_roundtrip(s: Seq<u8>, at: int, cs: Seq<Value>, acc: Seq<Value>)
    requires
        0 <= at,
        at + spec_encode_constants(cs).len() <= s.len(),
        s.subrange(at, at + spec_encode_constants(cs).len()) == spec_encode_constants(cs),
    ensures
        spec_read_constants(s, at, cs.len(), acc) == Ok::<(Seq<Value>, int), VreError>(
            (acc + cs, at + spec_encode_constants(cs).len()),
        ),
    decreases cs.len(),
{
    if cs.len() == 0 {
        assert(acc + cs =~= acc);
    } else {
        let e = spec_encode_constant(cs[0]);
        let rest = cs.subrange(1, cs.len() as int);
        let tail = spec_encode_constants(rest);
        let all = spec_encode_constants(cs);
        assert(all == e + tail);
        assert(all.subrange(0, e.len() as int) =~= e);
        assert(all.subrange(e.len() as int, all.len() as int) =~= tail);
        lemma_piece(s, at, all, 0, e);
        lemma_piece(s, at, all, e.len() as int, tail);
        lemma_constant_roundtrip(s, at, cs[0]);
        lemma_constants_roundtrip(s, at + e.len(), rest, acc.push(cs[0]));
        assert(acc.push(cs[0]) + rest =~= acc + cs);
    }
}

/// Writing a program file and reading it gives the content back: parsing is
/// a left inverse of encoding.
pub proof fn lemma_parse_encode(p: Parsed)
    requires
        spec_encodable(p),
    ensures
        spec_parse(spec_encode(p)) == Ok::<Parsed, VreError>(p),
{
    let s = spec_encode(p);
    let head = spec_encode_header(p.entry_point, p.constants.len() as int);
    let body = spec_encode_constants(p.constants);
    let count = p.constants.len() as int;
    let ilen = p.instructions.len() as int;
    assert(head.len() == 16);
    assert(s.len() == 16 + body.len() + 4 + ilen);
    assert(s.subrange(0, 4) =~= spec_be32(0x5659_4D41));
    lemma_be32_roundtrip(s, 0, 0x5659_4D41);
    assert(s[4] == 1u8);
    assert(s.subrange(8, 12) =~= spec_be32(p.entry_point));
    lemma_be32_roundtrip(s, 8, p.entry_point);
    assert(s.subrange(12, 16) =~= spec_be32(count));
    lemma_be32_roundtrip(s, 12, count);
    let blen = body.len() as int;
    assert(s.subrange(16, 16 + blen) =~= body);
    lemma_constants_roundtrip(s, 16, p.constants, Seq::empty());
    assert(Seq::<Value>::empty() + p.constants =~= p.constants);
    let at: int = 16 + blen;
    assert(s.subrange(at, at + 4) =~= spec_be32(ilen));
    lemma_be32_roundtrip(s, at, ilen);
    assert(s.subrange(at + 4, at + 4 + ilen) =~= p.instructions);
}

} // verus!
