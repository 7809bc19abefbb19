//! Numbers as bit patterns: what can be decided on the 64 bits of an
//! IEEE-754 binary64 number without computing with it.
//!
//! The top bit is the sign, the next eleven bits the exponent, the rest the
//! fraction. An all-ones exponent with a nonzero fraction is not a number
//! (NaN); both zeros compare equal; a NaN compares unequal to everything.

use vstd::prelude::*;

verus! {

/// Mask of the sign bit.
pub const SIGN_BIT: u64 = 0x8000_0000_0000_0000;

/// Mask of everything but the sign bit.
pub const MAGNITUDE: u64 = 0x7FFF_FFFF_FFFF_FFFF;

/// The magnitude of positive infinity, above which lie the NaNs.
pub const INFINITY: u64 = 0x7FF0_0000_0000_0000;

/// The five operations that need rounding and are left to the host's
/// numeric unit.
#[derive(Debug, Clone, Copy, PartialEq, Eq, Structural)]
pub enum ArithOp {
    Add,
    Sub,
    Mul,
    Div,
    Mod,
}

/// The six orderings that are decided on the bits.
#[derive(Debug, Clone, Copy, PartialEq, Eq, Structural)]
pub enum CompareOp {
    Equal,
    NotEqual,
    Less,
    LessEqual,
    Greater,
    GreaterEqual,
}

/// Whether the bits encode no number.
pub open spec fn spec_is_nan(bits: u64) -> bool {
    (bits & 0x7FFF_FFFF_FFFF_FFFF) > 0x7FF0_0000_0000_0000
}

/// Whether the bits encode zero, of either sign.
pub open spec fn spec_is_zero(bits: u64) -> bool {
    (bits & 0x7FFF_FFFF_FFFF_FFFF) == 0
}

/// Whether the sign bit is set.
pub open spec fn spec_is_negative(bits: u64) -> bool {
    (bits & 0x8000_0000_0000_0000) != 0
}

/// Numeric equality of two encoded numbers.
pub open spec fn spec_num_eq(a: u64, b: u64) -> bool {
    !spec_is_nan(a) && !spec_is_nan(b) && (a == b || (spec_is_zero(a) && spec_is_zero(b)))
}

/// Numeric "less than" of two encoded numbers.
pub open spec fn spec_num_lt(a: u64, b: u64) -> bool {
    !spec_is_nan(a) && !spec_is_nan(b) && !(spec_is_zero(a) && spec_is_zero(b)) && if spec_is_negative(
        a,
    ) {
        !spec_is_negative(b) || (a & 0x7FFF_FFFF_FFFF_FFFF) > (b & 0x7FFF_FFFF_FFFF_FFFF)
    } else {
        !spec_is_negative(b) && (a & 0x7FFF_FFFF_FFFF_FFFF) < (b & 0x7FFF_FFFF_FFFF_FFFF)
    }
}

/// The truth of `a op b` for two encoded numbers.
pub open spec fn spec_compare(op: CompareOp, a: u64, b: u64) -> bool {
    match op {
        CompareOp::Equal => spec_num_eq(a, b),
        CompareOp::NotEqual => !spec_num_eq(a, b),
        CompareOp::Less => spec_num_lt(a, b),
        CompareOp::LessEqual => spec_num_lt(a, b) || spec_num_eq(a, b),
        CompareOp::Greater => spec_num_lt(b, a),
        CompareOp::GreaterEqual => spec_num_lt(b, a) || spec_num_eq(a, b),
    }
}

/// The encoding of the negated number: the sign bit is flipped.
pub open spec fn spec_negate(bits: u64) -> u64 {
    bits ^ 0x8000_0000_0000_0000
}

/// Whether the bits encode no number.
pub fn is_nan(bits: u64) -> (r: bool)
    ensures
        r == spec_is_nan(bits),
{
    (bits & MAGNITUDE) > INFINITY
}

/// Whether the bits encode zero, of either sign.
pub fn is_zero(bits: u64) -> (r: bool)
    ensures
        r == spec_is_zero(bits),
{
    (bits & MAGNITUDE) == 0
}

/// Numeric equality of two encoded numbers.
pub fn num_eq(a: u64, b: u64) -> (r: bool)
    ensures
        r == spec_num_eq(a, b),
{
    !is_nan(a) && !is_nan(b) && (a == b || (is_zero(a) && is_zero(b)))
}

/// Numeric "less than" of two encoded numbers.
pub fn num_lt(a: u64, b: u64) -> (r: bool)
    ensures
        r == spec_num_lt(a, b),
{
    if is_nan(a) || is_nan(b) || (is_zero(a) && is_zero(b)) {
        return false;
    }
    let a_neg = (a & SIGN_BIT) != 0;
    let b_neg = (b & SIGN_BIT) != 0;
    if a_neg {
        !b_neg || (a & MAGNITUDE) > (b & MAGNITUDE)
    } else {
        !b_neg && (a & MAGNITUDE) < (b & MAGNITUDE)
    }
}

/// The truth of `a op b` for two encoded numbers.
pub fn compare(op: CompareOp, a: u64, b: u64) -> (r: bool)
    ensures
        r == spec_compare(op, a, b),
{
    match op {
        CompareOp::Equal => num_eq(a, b),
        CompareOp::NotEqual => !num_eq(a, b),
        CompareOp::Less => num_lt(a, b),
        CompareOp::LessEqual => num_lt(a, b) || num_eq(a, b),
        CompareOp::Greater => num_lt(b, a),
        CompareOp::GreaterEqual => num_lt(b, a) || num_eq(a, b),
    }
}

/// The encoding of the negated number.
pub fn negate(bits: u64) -> (r: u64)
    ensures
        r == spec_negate(bits),
{
    bits ^ SIGN_BIT
}

/// No number is less than itself, and "less than" never holds both ways.
pub proof fn lemma_num_lt_asymmetric(a: u64, b: u64)
    ensures
        !spec_num_lt(a, a),
        spec_num_lt(a, b) ==> !spec_num_lt(b, a) && !spec_num_eq(a, b),
{
}

/// Negating twice gives the number back, and negation keeps zeros and NaNs.
pub proof fn lemma_negate_involution(bits: u64)
    ensures
        spec_negate(spec_negate(bits)) == bits,
        spec_is_zero(spec_negate(bits)) == spec_is_zero(bits),
        spec_is_nan(spec_negate(bits)) == spec_is_nan(bits),
{
    assert((bits ^ 0x8000_0000_0000_0000) ^ 0x8000_0000_0000_0000 == bits) by (bit_vector);
    assert((bits ^ 0x8000_0000_0000_0000) & 0x7FFF_FFFF_FFFF_FFFF == bits
        & 0x7FFF_FFFF_FFFF_FFFF) by (bit_vector);
}

} // verus!
