//! The loader: from bytes to a validated bundle.

use vstd::prelude::*;
use vstd::slice::slice_subrange;
use crate::error::{VreError, VreResult};
use crate::vm::value::Value;
use super::decode::{spec_decode, Meta};
use super::validate::{
    named_caps, spec_ascending, spec_cap_named, spec_cap_reached, spec_validate, validate,
};
use super::format::{
    spec_parse, spec_read_constant, spec_read_constants, spec_u32_be, spec_u64_be, Parsed,
    BYTECODE_MAGIC, MIN_FILE_SIZE, VERSION_MAJOR,
};

verus! {

/// A program that was read from bytes.
#[derive(Debug)]
pub struct LoadedBytecode {
    pub constants: Vec<Value>,
    pub instructions: Vec<u8>,
    pub entry_point: usize,
    /// The capability ids that external calls of the program name, ascending
    /// and without repetition.
    pub caps: Vec<u8>,
}

impl LoadedBytecode {
    /// The content of the bundle as it stands in a program file.
    pub open spec fn parsed(&self) -> Parsed {
        Parsed {
            constants: self.constants@,
            instructions: self.instructions@,
            entry_point: self.entry_point as int,
        }
    }
}

/// The content and the decoded program of a valid program file, or the
/// reason why the file is rejected: a fault of the layout first, then one of
/// the instruction stream.
pub open spec fn spec_load(bytes: Seq<u8>) -> Result<(Parsed, Seq<Meta>), VreError> {
    match spec_parse(bytes) {
        Err(e) => Err(e),
        Ok(p) => match spec_validate(p.instructions) {
            Err(e) => Err(e),
            Ok(nodes) => Ok((p, nodes)),
        },
    }
}

/// What the lenient reading yields: layout and instruction lengths are
/// checked, jump targets and stack heights are not.
pub open spec fn spec_load_lenient(bytes: Seq<u8>) -> Result<(Parsed, Seq<Meta>), VreError> {
    match spec_parse(bytes) {
        Err(e) => Err(e),
        Ok(p) => match spec_decode(p.instructions, 0, Seq::empty()) {
            Err(e) => Err(e),
            Ok(metas) => Ok((p, metas)),
        },
    }
}

/// Whether `b` is the bundle of a strictly loaded file: its content is that
/// of the file, and its capabilities are those of the reachable external
/// calls.
pub open spec fn spec_strict_bundle(b: LoadedBytecode, p: Parsed, nodes: Seq<Meta>) -> bool {
    &&& b.parsed() == p
    &&& spec_ascending(b.caps@)
    &&& forall|c: u8| b.caps@.contains(c) <==> spec_cap_reached(nodes, c)
}

/// Whether `b` is the bundle of a leniently loaded file: its content is that
/// of the file, and its capabilities are those that any external call names.
pub open spec fn spec_lenient_bundle(b: LoadedBytecode, p: Parsed, metas: Seq<Meta>) -> bool {
    &&& b.parsed() == p
    &&& spec_ascending(b.caps@)
    &&& forall|c: u8| b.caps@.contains(c) <==> spec_cap_named(metas, c)
}

/// Loading what was written gives the content back: where the instructions
/// of an encodable content are valid, the file written for it loads to that
/// content.
pub proof fn lemma_load_encode(p: Parsed)
    requires
        super::format::spec_encodable(p),
    ensures
        spec_load(super::format::spec_encode(p)) == match spec_validate(p.instructions) {
            Ok(nodes) => Ok::<(Parsed, Seq<Meta>), VreError>((p, nodes)),
            Err(e) => Err::<(Parsed, Seq<Meta>), VreError>(e),
        },
        spec_load_lenient(super::format::spec_encode(p)) == match spec_decode(
            p.instructions,
            0,
            Seq::empty(),
        ) {
            Ok(metas) => Ok::<(Parsed, Seq<Meta>), VreError>((p, metas)),
            Err(e) => Err::<(Parsed, Seq<Meta>), VreError>(e),
        },
{
    super::format::lemma_parse_encode(p);
}

/// Entry points of loading. The type holds no state.
pub struct BytecodeLoader;

impl BytecodeLoader {
    /// Reads one byte at the cursor and moves the cursor behind it.
    pub fn read_u8(bytes: &[u8], cursor: &mut usize) -> (res: VreResult<u8>)
        ensures
            *old(cursor) < bytes@.len() ==> res == Ok::<u8, VreError>(bytes@[*old(cursor) as int])
                && *final(cursor) == *old(cursor) + 1,
            *old(cursor) >= bytes@.len() ==> res == Err::<u8, VreError>(
                VreError::BytecodeTooShort,
            ) && *final(cursor) == *old(cursor),
    {
        if *cursor >= bytes.len() {
            return Err(VreError::BytecodeTooShort);
        }
        let v = bytes[*cursor];
        *cursor = *cursor + 1;
        Ok(v)
    }

    /// Reads a big-endian 32-bit number at the cursor and moves the cursor
    /// behind it.
    pub fn read_u32(bytes: &[u8], cursor: &mut usize) -> (res: VreResult<u32>)
        ensures
            *old(cursor) + 4 <= bytes@.len() ==> res == Ok::<u32, VreError>(
                spec_u32_be(bytes@, *old(cursor) as int) as u32,
            ) && *final(cursor) == *old(cursor) + 4,
            *old(cursor) + 4 > bytes@.len() ==> res == Err::<u32, VreError>(
                VreError::BytecodeTooShort,
            ) && *final(cursor) == *old(cursor),
    {
        let at = *cursor;
        if bytes.len() < 4 || at > bytes.len() - 4 {
            return Err(VreError::BytecodeTooShort);
        }
        let v = super::decode::u32_be_at(bytes, at);
        *cursor = at + 4;
        Ok(v)
    }

    /// Reads the 64 bits of a number, most significant byte first, and moves
    /// the cursor behind them.
    pub fn read_number_bits(bytes: &[u8], cursor: &mut usize) -> (res: VreResult<u64>)
        ensures
            *old(cursor) + 8 <= bytes@.len() ==> res == Ok::<u64, VreError>(
                spec_u64_be(bytes@, *old(cursor) as int) as u64,
            ) && *final(cursor) == *old(cursor) + 8,
            *old(cursor) + 8 > bytes@.len() ==> res == Err::<u64, VreError>(
                VreError::BytecodeTooShort,
            ) && *final(cursor) == *old(cursor),
    {
        let at = *cursor;
        if bytes.len() < 8 || at > bytes.len() - 8 {
            return Err(VreError::BytecodeTooShort);
        }
        let hi = super::decode::u32_be_at(bytes, at) as u64;
        let lo = super::decode::u32_be_at(bytes, at + 4) as u64;
        *cursor = at + 8;
        Ok(hi * 0x1_0000_0000 + lo)
    }

    /// Reads one tagged constant at the cursor. On success the cursor stands
    /// behind the constant.
    pub fn read_constant(bytes: &[u8], cursor: &mut usize) -> (res: VreResult<Value>)
        ensures
            match res {
                Ok(v) => spec_read_constant(bytes@, *old(cursor) as int) == Ok::<
                    (Value, int),
                    VreError,
                >((v, *final(cursor) as int)),
                Err(e) => spec_read_constant(bytes@, *old(cursor) as int) == Err::<
                    (Value, int),
                    VreError,
                >(e),
            },
    {
        let start = *cursor;
        let tag = Self::read_u8(bytes, cursor)?;
        match tag {
            0x00 => Ok(Value::Null),
            0x01 => {
                let b = Self::read_u8(bytes, cursor)?;
                Ok(Value::Bool(b != 0))
            },
            0x02 => {
                let n = Self::read_number_bits(bytes, cursor)?;
                Ok(Value::Number(n))
            },
            0xFF => {
                let id = Self::read_u32(bytes, cursor)?;
                Ok(Value::Ref(id))
            },
            _ => Err(VreError::MalformedBytecode),
        }
    }

    /// Reads header, constants and instruction bytes, without looking into the
    /// instructions. The bundle's `caps` is empty.
    pub fn parse(bytes: &[u8]) -> (res: VreResult<LoadedBytecode>)
        ensures
            match res {
                Ok(b) => spec_parse(bytes@) == Ok::<Parsed, VreError>(b.parsed()) && b.caps@.len()
                    == 0,
                Err(e) => spec_parse(bytes@) == Err::<Parsed, VreError>(e),
            },
    {
        if bytes.len() < MIN_FILE_SIZE {
            return Err(VreError::BytecodeTooShort);
        }
        let magic = super::decode::u32_be_at(bytes, 0);
        if magic != BYTECODE_MAGIC {
            return Err(VreError::InvalidMagicNumber);
        }
        if bytes[4] != VERSION_MAJOR {
            return Err(VreError::InvalidBytecodeVersion);
        }
        let entry_point = super::decode::u32_be_at(bytes, 8) as usize;
        let constant_count = super::decode::u32_be_at(bytes, 12);
        let mut constants: Vec<Value> = Vec::new();
        let mut cursor: usize = 16;
        let mut i: u32 = 0;
        while i < constant_count
            invariant
                i <= constant_count,
                cursor <= bytes@.len(),
                bytes@.len() >= 16,
                spec_u32_be(bytes@, 0) == 0x5659_4D41,
                bytes@[4] == 1,
                constant_count == spec_u32_be(bytes@, 12),
                spec_read_constants(bytes@, 16, constant_count as nat, Seq::empty())
                    == spec_read_constants(
                    bytes@,
                    cursor as int,
                    (constant_count - i) as nat,
                    constants@,
                ),
            decreases constant_count - i,
        {
            let ghost before = cursor as int;
            let ghost acc = constants@;
            assert(spec_read_constants(bytes@, before, (constant_count - i) as nat, acc) == (
            match spec_read_constant(bytes@, before) {
                Err(e) => Err(e),
                Ok((v, next)) => spec_read_constants(
                    bytes@,
                    next,
                    (constant_count - i - 1) as nat,
                    acc.push(v),
                ),
            }));
            match Self::read_constant(bytes, &mut cursor) {
                Ok(v) => {
                    constants.push(v);
                },
                Err(e) => {
                    return Err(e);
                },
            }
            i += 1;
        }
        let at = cursor;
        let instruction_len = match Self::read_u32(bytes, &mut cursor) {
            Ok(n) => n as usize,
            Err(e) => {
                return Err(e);
            },
        };
        if instruction_len > bytes.len() - cursor {
            return Err(VreError::BytecodeTooShort);
        }
        let code = slice_subrange(bytes, cursor, cursor + instruction_len);
        let instructions = vstd::slice::slice_to_vec(code);
        Ok(LoadedBytecode { constants, instructions, entry_point, caps: Vec::new() })
    }

    /// Loads a program and validates it. Either the whole validated bundle is
    /// returned or an error; nothing is built in part.
    pub fn load(bytes: &[u8]) -> (res: VreResult<LoadedBytecode>)
        ensures
            match res {
                Ok(b) => match spec_load(bytes@) {
                    Ok((p, nodes)) => spec_strict_bundle(b, p, nodes),
                    Err(_) => false,
                },
                Err(e) => spec_load(bytes@) == Err::<(Parsed, Seq<Meta>), VreError>(e),
            },
    {
        let parsed = match Self::parse(bytes) {
            Ok(b) => b,
            Err(e) => {
                return Err(e);
            },
        };
        let caps = match validate(parsed.instructions.as_slice()) {
            Ok(caps) => caps,
            Err(e) => {
                return Err(e);
            },
        };
        Ok(
            LoadedBytecode {
                constants: parsed.constants,
                instructions: parsed.instructions,
                entry_point: parsed.entry_point,
                caps,
            },
        )
    }

    /// Loads a program without validating jump targets and stack heights.
    /// Layout, constants and the length of every instruction are still
    /// checked.
    pub fn load_lenient(bytes: &[u8]) -> (res: VreResult<LoadedBytecode>)
        ensures
            match res {
                Ok(b) => match spec_load_lenient(bytes@) {
                    Ok((p, metas)) => spec_lenient_bundle(b, p, metas),
                    Err(_) => false,
                },
                Err(e) => spec_load_lenient(bytes@) == Err::<(Parsed, Seq<Meta>), VreError>(e),
            },
    {
        let parsed = match Self::parse(bytes) {
            Ok(b) => b,
            Err(e) => {
                return Err(e);
            },
        };
        let caps = match named_caps(parsed.instructions.as_slice()) {
            Ok(caps) => caps,
            Err(e) => {
                return Err(e);
            },
        };
        Ok(
            LoadedBytecode {
                constants: parsed.constants,
                instructions: parsed.instructions,
                entry_point: parsed.entry_point,
                caps,
            },
        )
    }

    /// Loads strictly; where that fails and `allow_opt_in` is set, loads
    /// leniently. The flag in the result says whether the lenient reading was
    /// used.
    pub fn load_with_opt_in(bytes: &[u8], allow_opt_in: bool) -> (res: VreResult<
        (LoadedBytecode, bool),
    >)
        ensures
            match spec_load(bytes@) {
                Ok((p, nodes)) => res is Ok && !res.unwrap().1 && spec_strict_bundle(
                    res.unwrap().0,
                    p,
                    nodes,
                ),
                Err(e) => if !allow_opt_in {
                    res == Err::<(LoadedBytecode, bool), VreError>(e)
                } else {
                    match spec_load_lenient(bytes@) {
                        Ok((p, metas)) => res is Ok && res.unwrap().1 && spec_lenient_bundle(
                            res.unwrap().0,
                            p,
                            metas,
                        ),
                        Err(e2) => res == Err::<(LoadedBytecode, bool), VreError>(e2),
                    }
                },
            },
    {
        match Self::load(bytes) {
            Ok(b) => Ok((b, false)),
            Err(e) => {
                if !allow_opt_in {
                    return Err(e);
                }
                match Self::load_lenient(bytes) {
                    Ok(b) => Ok((b, true)),
                    Err(e2) => Err(e2),
                }
            },
        }
    }

    /// The capability ids that the external calls of a program name, whether
    /// control can reach them or not, ascending and each once.
    pub fn collect_caps(bytes: &[u8]) -> (res: VreResult<Vec<u8>>)
        ensures
            match res {
                Ok(caps) => match spec_load_lenient(bytes@) {
                    Ok((p, metas)) => spec_ascending(caps@) && forall|c: u8|
                        caps@.contains(c) <==> spec_cap_named(metas, c),
                    Err(_) => false,
                },
                Err(e) => spec_load_lenient(bytes@) == Err::<(Parsed, Seq<Meta>), VreError>(e),
            },
    {
        match Self::load_lenient(bytes) {
            Ok(b) => Ok(b.caps),
            Err(e) => Err(e),
        }
    }
}

} // verus!
