//! The binary128 representation: a 128-bit pattern with 1 sign bit, 15
//! exponent bits and 112 explicit significand bits, plus the layout
//! constants derived from those widths and the spec-level classifiers
//! over raw bit patterns.

use vstd::prelude::*;

verus! {

/// Total width of the format in bits.
pub const BITS: u32 = 128;

/// Number of explicit significand bits.
pub const SIGNIFICAND_BITS: u32 = 112;

/// Number of exponent bits.
pub const EXPONENT_BITS: u32 = 15;

/// Largest value of the exponent field, reserved for infinity and NaN.
pub const MAX_EXPONENT: i32 = 0x7fff;

/// Bias of the exponent field.
pub const EXPONENT_BIAS: i32 = 0x3fff;

/// The implicit leading significand bit of a normal number.
pub const IMPLICIT_BIT: u128 = 0x1_0000_0000_0000_0000_0000_0000_0000;

/// Mask of the explicit significand field.
pub const SIGNIFICAND_MASK: u128 = 0xffff_ffff_ffff_ffff_ffff_ffff_ffff;

/// The sign bit.
pub const SIGN_BIT: u128 = 0x8000_0000_0000_0000_0000_0000_0000_0000;

/// Mask of everything but the sign bit.
pub const ABS_MASK: u128 = 0x7fff_ffff_ffff_ffff_ffff_ffff_ffff_ffff;

/// Mask of the exponent field.
pub const EXPONENT_MASK: u128 = 0x7fff_0000_0000_0000_0000_0000_0000_0000;

/// Bit pattern of positive infinity: exponent field all ones, significand zero.
pub const INF_REP: u128 = EXPONENT_MASK;

/// The bit distinguishing quiet NaNs from signaling NaNs.
pub const QUIET_BIT: u128 = 0x8000_0000_0000_0000_0000_0000_0000;

/// Mask of the NaN payload bits below the quiet bit.
pub const QUIET_PAYLOAD_MASK: u128 = 0x7fff_ffff_ffff_ffff_ffff_ffff_ffff;

/// Bit pattern of the canonical quiet NaN.
pub const QNAN_REP: u128 = EXPONENT_MASK | QUIET_BIT;

/// Bit pattern of 1.0.
pub const ONE_REP: u128 = 0x3fff_0000_0000_0000_0000_0000_0000_0000;

/// An IEEE-754 binary128 value, held as its raw 128-bit pattern.
/// Values are immutable once constructed; arithmetic produces new values.
#[derive(Clone, Copy)]
pub struct Float128(u128);

impl View for Float128 {
    type V = u128;

    closed spec fn view(&self) -> u128 {
        self.0
    }
}

impl Float128 {
    /// Wraps a raw 128-bit pattern; infallible and total.
    pub fn from_bits(bits: u128) -> (r: Float128)
        ensures
            r@ == bits,
    {
        Float128(bits)
    }

    /// Exposes the underlying pattern for classification and bit
    /// manipulation; infallible and total.
    pub fn to_bits(self) -> (r: u128)
        ensures
            r == self@,
    {
        self.0
    }

    /// Flips only the sign bit; NaN payloads and quiet-bit state are
    /// untouched, so negation is safe for every operand class.
    pub fn negate(self) -> (r: Float128)
        ensures
            r@ == negated_bits(self@),
    {
        Float128(self.0 ^ SIGN_BIT)
    }
}

/// The value holding a given bit pattern, at the specification level.
pub closed spec fn spec_from_bits(b: u128) -> Float128 {
    Float128(b)
}

/// What `spec_from_bits` wraps is what its view exposes.
pub broadcast proof fn lemma_spec_from_bits(b: u128)
    ensures
        (#[trigger] spec_from_bits(b))@ == b,
{
}

/// A value is nothing but its bit pattern: equal views mean equal values.
pub proof fn lemma_bits_determine_value(a: Float128, b: Float128)
    requires
        a@ == b@,
    ensures
        a == b,
{
}

/// Magnitude of a bit pattern: everything but the sign bit.
pub open spec fn abs_bits(b: u128) -> u128 {
    b & ABS_MASK
}

/// The pattern with only the sign bit flipped.
pub open spec fn negated_bits(b: u128) -> u128 {
    b ^ SIGN_BIT
}

/// A NaN: exponent field all ones and a nonzero significand.
pub open spec fn is_nan_bits(b: u128) -> bool {
    abs_bits(b) > INF_REP
}

/// A quiet NaN: a NaN with the quiet bit set.
pub open spec fn is_quiet_nan_bits(b: u128) -> bool {
    is_nan_bits(b) && b & QUIET_BIT != 0
}

/// An infinity of either sign.
pub open spec fn is_inf_bits(b: u128) -> bool {
    abs_bits(b) == INF_REP
}

/// A zero of either sign.
pub open spec fn is_zero_bits(b: u128) -> bool {
    abs_bits(b) == 0
}

/// A finite value: zero, denormal or normal.
pub open spec fn is_finite_bits(b: u128) -> bool {
    abs_bits(b) < INF_REP
}

/// The biased exponent field.
pub open spec fn exp_field(b: u128) -> u128 {
    (b >> 112) & 0x7fff
}

/// The explicit significand field.
pub open spec fn sig_field(b: u128) -> u128 {
    b & SIGNIFICAND_MASK
}

/// The sign bit of a pattern, in place.
pub open spec fn sign_field(b: u128) -> u128 {
    b & SIGN_BIT
}

} // verus!
