//! Runtime values.

use vstd::prelude::*;

verus! {

/// A runtime value. A number is held as the 64 bits of its IEEE-754 binary64
/// encoding, so that values compare and copy as plain data.
#[derive(Debug, Clone, Copy, PartialEq, Eq, Structural)]
pub enum Value {
    /// Absence of a value.
    Null,
    /// A truth value.
    Bool(bool),
    /// A binary64 number, by its bit pattern.
    Number(u64),
    /// An opaque identifier of a host object.
    Ref(u32),
}

} // verus!
