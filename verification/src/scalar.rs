//! Real numbers as the engine carries them.
//!
//! Every coordinate that passes through the engine is an IEEE 754 binary64
//! number held by its bit pattern. The engine stores and hands back such
//! numbers unchanged; the one question it asks of a number is whether it is
//! strictly greater than zero, and that question is answered on the bits.

use vstd::prelude::*;

verus! {

/// The bit that carries the sign of a binary64 number.
pub const SIGN_BIT: u64 = 0x8000_0000_0000_0000;

/// The bit pattern of positive infinity, the largest pattern that is a
/// number of positive sign; every larger pattern below `SIGN_BIT` is a NaN.
pub const POSITIVE_INFINITY: u64 = 0x7FF0_0000_0000_0000;

/// A binary64 number, held by its bit pattern.
///
/// Two scalars are equal when their bit patterns are: positive and negative
/// zero differ, and a NaN equals itself.
#[derive(Clone, Copy, Debug, PartialEq, Eq, Structural)]
pub struct Scalar(pub u64);

impl Scalar {
    /// The number is strictly greater than zero: its sign bit is clear, it
    /// is not zero and it is not a NaN. Positive infinity counts.
    pub open spec fn spec_is_positive(self) -> bool {
        0 < self.0 <= POSITIVE_INFINITY
    }

    /// The number is zero, of either sign.
    pub open spec fn spec_is_zero(self) -> bool {
        self.0 == 0 || self.0 == SIGN_BIT
    }

    /// Positive zero.
    pub fn zero() -> (r: Scalar)
        ensures
            r == Scalar(0),
            r.spec_is_zero(),
    {
        Scalar(0)
    }

    /// The scalar with the given bit pattern.
    pub fn from_bits(bits: u64) -> (r: Scalar)
        ensures
            r == Scalar(bits),
    {
        Scalar(bits)
    }

    /// The bit pattern of the scalar.
    pub fn to_bits(self) -> (bits: u64)
        ensures
            bits == self.0,
    {
        self.0
    }

    /// Whether the number is strictly greater than zero.
    pub fn is_positive(self) -> (r: bool)
        ensures
            r == self.spec_is_positive(),
    {
        0 < self.0 && self.0 <= POSITIVE_INFINITY
    }

    /// Whether the number is zero, of either sign.
    pub fn is_zero(self) -> (r: bool)
        ensures
            r == self.spec_is_zero(),
    {
        self.0 == 0 || self.0 == SIGN_BIT
    }
}

/// Zero, of either sign, is not strictly greater than zero.
pub proof fn lemma_zero_is_not_positive(s: Scalar)
    requires
        s.spec_is_zero(),
    ensures
        !s.spec_is_positive(),
{
}

} // verus!
