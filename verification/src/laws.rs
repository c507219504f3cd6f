//! Algebraic laws of binary128 addition and subtraction, proved of the
//! model that every executable entry point is verified against.

use crate::fenv::RoundMode;
use crate::model::{spec_add_bits, spec_add_ordered, spec_sub_bits};
use crate::rep::{
    abs_bits, is_finite_bits, is_inf_bits, is_nan_bits, is_quiet_nan_bits, is_zero_bits,
    negated_bits, sign_field, QNAN_REP, QUIET_BIT, QUIET_PAYLOAD_MASK, SIGNIFICAND_MASK,
    SIGN_BIT,
};
use vstd::prelude::*;

verus! {

/// Exact cancellation: for every finite `xb`, adding its negation gives
/// canonical +0, in every rounding mode.
pub proof fn lemma_exact_cancellation(xb: u128, mode: RoundMode)
    requires
        is_finite_bits(xb),
    ensures
        spec_add_bits(xb, negated_bits(xb), mode) == 0,
{
    let yb = xb ^ SIGN_BIT;
    assert((yb & 0x7fff_ffff_ffff_ffff_ffff_ffff_ffff_ffff) == (xb
        & 0x7fff_ffff_ffff_ffff_ffff_ffff_ffff_ffff)) by (bit_vector)
        requires
            yb == xb ^ 0x8000_0000_0000_0000_0000_0000_0000_0000,
    ;
    if is_zero_bits(xb) {
        assert((xb & yb) == 0) by (bit_vector)
            requires
                yb == xb ^ 0x8000_0000_0000_0000_0000_0000_0000_0000,
                xb & 0x7fff_ffff_ffff_ffff_ffff_ffff_ffff_ffff == 0,
        ;
    } else {
        assert(((yb >> 112) & 0x7fff) == ((xb >> 112) & 0x7fff) && (yb
            & 0xffff_ffff_ffff_ffff_ffff_ffff_ffff) == (xb & 0xffff_ffff_ffff_ffff_ffff_ffff_ffff)
            && ((xb ^ yb) & 0x8000_0000_0000_0000_0000_0000_0000_0000) != 0) by (bit_vector)
            requires
                yb == xb ^ 0x8000_0000_0000_0000_0000_0000_0000_0000,
        ;
        assert(spec_add_ordered(xb, yb, mode) == (0u128, false));
    }
}

/// Commutativity of addition: the operands may change places whenever
/// they are not two NaNs with distinct quieted patterns (there the
/// result is the first NaN, quieted, so the order shows).
pub proof fn lemma_commutative(xb: u128, yb: u128, mode: RoundMode)
    requires
        !(is_nan_bits(xb) && is_nan_bits(yb) && (xb | QUIET_BIT) != (yb | QUIET_BIT)),
    ensures
        spec_add_bits(xb, yb, mode) == spec_add_bits(yb, xb, mode),
{
    if is_nan_bits(xb) || is_nan_bits(yb) {
        // One NaN: the same quieted NaN either way; two NaNs: equal by
        // the precondition.
    } else if is_inf_bits(xb) && is_inf_bits(yb) {
        assert((xb ^ yb) == (yb ^ xb)) by (bit_vector);
        if (xb ^ yb) != SIGN_BIT {
            assert(xb == yb) by (bit_vector)
                requires
                    xb & 0x7fff_ffff_ffff_ffff_ffff_ffff_ffff_ffff == 0x7fff_0000_0000_0000_0000_0000_0000_0000,
                    yb & 0x7fff_ffff_ffff_ffff_ffff_ffff_ffff_ffff == 0x7fff_0000_0000_0000_0000_0000_0000_0000,
                    (xb ^ yb) != 0x8000_0000_0000_0000_0000_0000_0000_0000,
            ;
        }
    } else if is_inf_bits(xb) {
        assert((xb ^ yb) != 0x8000_0000_0000_0000_0000_0000_0000_0000) by (bit_vector)
            requires
                xb & 0x7fff_ffff_ffff_ffff_ffff_ffff_ffff_ffff == 0x7fff_0000_0000_0000_0000_0000_0000_0000,
                yb & 0x7fff_ffff_ffff_ffff_ffff_ffff_ffff_ffff != 0x7fff_0000_0000_0000_0000_0000_0000_0000,
        ;
    } else if is_inf_bits(yb) {
        assert((yb ^ xb) != 0x8000_0000_0000_0000_0000_0000_0000_0000) by (bit_vector)
            requires
                yb & 0x7fff_ffff_ffff_ffff_ffff_ffff_ffff_ffff == 0x7fff_0000_0000_0000_0000_0000_0000_0000,
                xb & 0x7fff_ffff_ffff_ffff_ffff_ffff_ffff_ffff != 0x7fff_0000_0000_0000_0000_0000_0000_0000,
        ;
    } else if is_zero_bits(xb) && is_zero_bits(yb) {
        assert((xb & yb) == (yb & xb)) by (bit_vector);
    } else if is_zero_bits(xb) || is_zero_bits(yb) {
        // zero + nonzero hands back the nonzero operand either way.
    } else if abs_bits(yb) > abs_bits(xb) || abs_bits(xb) > abs_bits(yb) {
        // Distinct magnitudes: both orders reduce to the same ordered
        // pair, major first.
    } else {
        // Equal magnitudes in the general path.
        if (xb ^ yb) & SIGN_BIT == 0 {
            assert(xb == yb) by (bit_vector)
                requires
                    xb & 0x7fff_ffff_ffff_ffff_ffff_ffff_ffff_ffff == yb
                        & 0x7fff_ffff_ffff_ffff_ffff_ffff_ffff_ffff,
                    (xb ^ yb) & 0x8000_0000_0000_0000_0000_0000_0000_0000 == 0,
            ;
        } else {
            // Opposite signs with equal magnitude: exact cancellation
            // to +0 in both orders.
            assert(((yb >> 112) & 0x7fff) == ((xb >> 112) & 0x7fff) && (yb
                & 0xffff_ffff_ffff_ffff_ffff_ffff_ffff) == (xb
                & 0xffff_ffff_ffff_ffff_ffff_ffff_ffff) && ((yb ^ xb)
                & 0x8000_0000_0000_0000_0000_0000_0000_0000) != 0) by (bit_vector)
                requires
                    xb & 0x7fff_ffff_ffff_ffff_ffff_ffff_ffff_ffff == yb
                        & 0x7fff_ffff_ffff_ffff_ffff_ffff_ffff_ffff,
                    (xb ^ yb) & 0x8000_0000_0000_0000_0000_0000_0000_0000 != 0,
            ;
            assert(spec_add_ordered(xb, yb, mode) == (0u128, false));
            assert(spec_add_ordered(yb, xb, mode) == (0u128, false));
        }
    }
}

/// +0 is the identity for every non-NaN operand, except that -0 + +0 is
/// +0: the bit pattern only changes when the operand is negative zero.
pub proof fn lemma_zero_identity(xb: u128, mode: RoundMode)
    requires
        !is_nan_bits(xb),
    ensures
        xb != SIGN_BIT ==> spec_add_bits(xb, 0, mode) == xb,
        xb == SIGN_BIT ==> spec_add_bits(xb, 0, mode) == 0,
{
    assert(0u128 & 0x7fff_ffff_ffff_ffff_ffff_ffff_ffff_ffff == 0) by (bit_vector);
    if is_inf_bits(xb) {
        assert((xb ^ 0) != 0x8000_0000_0000_0000_0000_0000_0000_0000 && xb
            != 0x8000_0000_0000_0000_0000_0000_0000_0000) by (bit_vector)
            requires
                xb & 0x7fff_ffff_ffff_ffff_ffff_ffff_ffff_ffff == 0x7fff_0000_0000_0000_0000_0000_0000_0000,
        ;
    } else if is_zero_bits(xb) {
        assert((xb & 0) == 0) by (bit_vector);
        assert(xb == 0 || xb == SIGN_BIT) by (bit_vector)
            requires
                xb & 0x7fff_ffff_ffff_ffff_ffff_ffff_ffff_ffff == 0,
        ;
    } else {
        assert(xb != 0x8000_0000_0000_0000_0000_0000_0000_0000) by (bit_vector)
            requires
                xb & 0x7fff_ffff_ffff_ffff_ffff_ffff_ffff_ffff != 0,
        ;
    }
}

/// NaN propagation: a NaN operand decides the result, which is that
/// operand quieted — a quiet NaN whose payload bits below the quiet bit
/// are preserved from whichever operand's NaN-ness triggered it.
pub proof fn lemma_nan_propagation(xb: u128, yb: u128, mode: RoundMode)
    requires
        is_nan_bits(xb) || is_nan_bits(yb),
    ensures
        is_nan_bits(xb) ==> spec_add_bits(xb, yb, mode) == (xb | QUIET_BIT),
        !is_nan_bits(xb) ==> spec_add_bits(xb, yb, mode) == (yb | QUIET_BIT),
        is_quiet_nan_bits(spec_add_bits(xb, yb, mode)),
        is_nan_bits(xb) ==> spec_add_bits(xb, yb, mode) & QUIET_PAYLOAD_MASK == xb & QUIET_PAYLOAD_MASK,
        !is_nan_bits(xb) ==> spec_add_bits(xb, yb, mode) & QUIET_PAYLOAD_MASK == yb & QUIET_PAYLOAD_MASK,
{
    let t = if is_nan_bits(xb) {
        xb
    } else {
        yb
    };
    assert(((t | 0x8000_0000_0000_0000_0000_0000_0000) & 0x7fff_ffff_ffff_ffff_ffff_ffff_ffff_ffff)
        > 0x7fff_0000_0000_0000_0000_0000_0000_0000 && ((t | 0x8000_0000_0000_0000_0000_0000_0000)
        & 0x8000_0000_0000_0000_0000_0000_0000) != 0 && ((t | 0x8000_0000_0000_0000_0000_0000_0000)
        & 0x7fff_ffff_ffff_ffff_ffff_ffff_ffff) == (t & 0x7fff_ffff_ffff_ffff_ffff_ffff_ffff)) by (
    bit_vector)
        requires
            (t & 0x7fff_ffff_ffff_ffff_ffff_ffff_ffff_ffff)
                > 0x7fff_0000_0000_0000_0000_0000_0000_0000,
    ;
}

/// Infinity arithmetic: an infinite operand wins against anything
/// finite; two infinities of opposite sign give the canonical quiet
/// NaN, and of equal sign give that same infinity.
pub proof fn lemma_infinity(xb: u128, yb: u128, mode: RoundMode)
    requires
        is_inf_bits(xb),
        !is_nan_bits(yb),
    ensures
        is_inf_bits(yb) && sign_field(yb) != sign_field(xb) ==> spec_add_bits(xb, yb, mode)
            == QNAN_REP,
        !(is_inf_bits(yb) && sign_field(yb) != sign_field(xb)) ==> spec_add_bits(xb, yb, mode)
            == xb,
{
    assert(((xb ^ yb) == 0x8000_0000_0000_0000_0000_0000_0000_0000) <==> ((yb
        & 0x7fff_ffff_ffff_ffff_ffff_ffff_ffff_ffff) == 0x7fff_0000_0000_0000_0000_0000_0000_0000
        && (yb & 0x8000_0000_0000_0000_0000_0000_0000_0000) != (xb
        & 0x8000_0000_0000_0000_0000_0000_0000_0000))) by (bit_vector)
        requires
            xb & 0x7fff_ffff_ffff_ffff_ffff_ffff_ffff_ffff == 0x7fff_0000_0000_0000_0000_0000_0000_0000,
    ;
}

/// Subtraction is exactly addition of the negated second operand, for
/// all operands; the sign flip leaves NaN-ness, the quiet bit and the
/// payload of a NaN second operand untouched.
pub proof fn lemma_subtract_negates(xb: u128, yb: u128, mode: RoundMode)
    ensures
        spec_sub_bits(xb, yb, mode) == spec_add_bits(xb, negated_bits(yb), mode),
        is_nan_bits(negated_bits(yb)) == is_nan_bits(yb),
        negated_bits(yb) & QUIET_BIT == yb & QUIET_BIT,
        negated_bits(yb) & SIGNIFICAND_MASK == yb & SIGNIFICAND_MASK,
{
    let nb = yb ^ SIGN_BIT;
    assert((nb & 0x7fff_ffff_ffff_ffff_ffff_ffff_ffff_ffff) == (yb
        & 0x7fff_ffff_ffff_ffff_ffff_ffff_ffff_ffff) && (nb & 0x8000_0000_0000_0000_0000_0000_0000)
        == (yb & 0x8000_0000_0000_0000_0000_0000_0000) && (nb
        & 0xffff_ffff_ffff_ffff_ffff_ffff_ffff) == (yb & 0xffff_ffff_ffff_ffff_ffff_ffff_ffff)) by (
    bit_vector)
        requires
            nb == yb ^ 0x8000_0000_0000_0000_0000_0000_0000_0000,
    ;
}

} // verus!
