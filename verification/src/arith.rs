//! The executable kernel: denormal normalization and the add/subtract
//! entry points, verified against the model in [`crate::model`].

use crate::fenv::{fe_getround, fe_raise_inexact, RoundMode};
use crate::model::{
    aligned_minor, denorm_sig, lemma_major_dominates, lemma_op_range, lemma_pow2_index_below,
    lemma_pow2_layout, lemma_spec_norm, norm_measure, op_exp, op_sig, pack_round, rounded,
    spec_add_bits, spec_add_inexact, spec_add_ordered, spec_norm, spec_sub_bits,
    spec_sub_inexact, GRS_CARRY_BIT, GRS_IMPLICIT_BIT,
};
use crate::rep::{
    abs_bits, is_finite_bits, is_zero_bits, lemma_bits_determine_value, lemma_spec_from_bits,
    negated_bits, spec_from_bits, Float128, ABS_MASK, IMPLICIT_BIT, INF_REP, MAX_EXPONENT,
    QNAN_REP, QUIET_BIT, SIGNIFICAND_MASK, SIGN_BIT,
};
use vstd::arithmetic::power2::*;
use vstd::prelude::*;

verus! {

/// Doubles `*sig`, decrementing `*exp`, until `*sig` reaches `t`:
/// exactly what [`spec_norm`] describes.
fn norm_loop(sig: &mut u128, exp: &mut i32, t: u128)
    requires
        0 < *old(sig),
        0 < t,
        t <= GRS_IMPLICIT_BIT,
        -300 <= *old(exp) <= 40000,
    ensures
        (*final(sig), *final(exp) as int) == spec_norm(*old(sig), *old(exp) as int, t),
{
    let ghost sig0 = *sig;
    let ghost exp0 = *exp;
    let ghost mut k: nat = 0;
    proof {
        lemma2_to64();
    }
    while *sig < t
        invariant
            0 < *sig,
            0 < t,
            t <= GRS_IMPLICIT_BIT,
            *sig == sig0 * pow2(k),
            *exp == exp0 - k,
            k <= 115,
            -300 <= exp0 <= 40000,
            0 < sig0,
            spec_norm(*sig, *exp as int, t) == spec_norm(sig0, exp0 as int, t),
        decreases norm_measure(*sig, t),
    {
        proof {
            // The count is bounded: pow2(k) <= sig < t <= 2^115.
            lemma_pow2_layout();
            lemma_pow2_pos(k);
            assert(pow2(k) <= sig0 * pow2(k)) by (nonlinear_arith)
                requires
                    1 <= sig0,
                    pow2(k) > 0,
            ;
            lemma_pow2_index_below(k, 115);
        }
        *sig = *sig * 2;
        *exp = *exp - 1;
        proof {
            lemma_pow2_unfold((k + 1) as nat);
            assert(sig0 * (2 * pow2(k)) == 2 * (sig0 * pow2(k))) by (nonlinear_arith);
            k = k + 1;
        }
    }
}

/// Normalizes a denormal significand: shifts it left until its leading
/// bit sits at the implicit-bit position and returns the effective
/// biased exponent, one less than a normal's minimum per shift step.
pub fn normalize(significand: &mut u128) -> (e: i32)
    requires
        0 < *old(significand),
    ensures
        (*final(significand), e as int) == spec_norm(*old(significand), 1, IMPLICIT_BIT),
{
    let mut exp: i32 = 1;
    proof {
        lemma_pow2_layout();
        assert(IMPLICIT_BIT <= GRS_IMPLICIT_BIT);
    }
    norm_loop(significand, &mut exp, IMPLICIT_BIT);
    exp
}

/// Overflow and underflow handling, composition of the final pattern,
/// and the rounding-mode policy over the low round/guard/sticky bits.
fn round_pack(sig0: u128, exp0: i32, sign: u128, mode: RoundMode) -> (r: (u128, bool))
    requires
        -300 <= exp0 <= 40000,
        sign == 0 || sign == SIGN_BIT,
    ensures
        (r.0, r.1) == pack_round(sig0, exp0 as int, sign, mode),
{
    // Exponent at or above the reserved field: overflow to infinity,
    // which is always an inexact result.
    if exp0 >= MAX_EXPONENT {
        return (INF_REP | sign, true);
    }
    let mut sig = sig0;
    let mut exp = exp0;
    if exp <= 0 {
        // Denormal result: shift right so the exponent field can be 0,
        // keeping a sticky bit for what is shifted out.
        let shift: i32 = 1 - exp;
        if shift >= 128 {
            sig = if sig != 0 {
                1
            } else {
                0
            };
        } else {
            let sticky = (sig << ((128 - shift) as u128)) != 0;
            sig = (sig >> (shift as u128)) | (if sticky {
                1u128
            } else {
                0u128
            });
        }
        exp = 0;
        proof {
            assert(sig == denorm_sig(sig0, 1 - exp0 as int));
        }
    }
    let rgs = sig & 7;
    let packed = ((sig >> 3) & SIGNIFICAND_MASK) | ((exp as u128) << 112) | sign;
    proof {
        assert(packed < 0xffff_ffff_ffff_ffff_ffff_ffff_ffff_fffe) by (bit_vector)
            requires
                packed == ((sig >> 3) & 0xffff_ffff_ffff_ffff_ffff_ffff_ffff) | ((exp as u128)
                    << 112) | sign,
                (exp as u128) <= 0x7ffe,
                sign == 0 || sign == 0x8000_0000_0000_0000_0000_0000_0000_0000,
        ;
    }
    let mut result = packed;
    match mode {
        RoundMode::ToNearest => {
            if rgs > 4 {
                result = result + 1;
            } else if rgs == 4 {
                proof {
                    assert(result & 1 <= 1) by (bit_vector);
                }
                result = result + (result & 1);
            }
        },
        RoundMode::Downward => {
            if sign != 0 && rgs != 0 {
                result = result + 1;
            }
        },
        RoundMode::Upward => {
            if sign == 0 && rgs != 0 {
                result = result + 1;
            }
        },
        RoundMode::TowardZero => {},
    }
    proof {
        assert(result == rounded(packed, rgs, sign, mode));
    }
    (result, rgs != 0)
}

/// The general path, once special values are ruled out: swap so the
/// larger magnitude leads, normalize denormals, align, add or subtract
/// the significands, renormalize and round.
fn add_general(xb0: u128, yb0: u128, mode: RoundMode) -> (r: (u128, bool))
    requires
        is_finite_bits(xb0),
        is_finite_bits(yb0),
        !is_zero_bits(xb0),
        !is_zero_bits(yb0),
    ensures
        abs_bits(yb0) > abs_bits(xb0) ==> (r.0, r.1) == spec_add_ordered(yb0, xb0, mode),
        abs_bits(yb0) <= abs_bits(xb0) ==> (r.0, r.1) == spec_add_ordered(xb0, yb0, mode),
{
    let xabs0 = xb0 & ABS_MASK;
    let yabs0 = yb0 & ABS_MASK;
    // Swap if necessary so that xb has the larger magnitude.
    let (xb, yb) = if yabs0 > xabs0 {
        (yb0, xb0)
    } else {
        (xb0, yb0)
    };
    proof {
        lemma_op_range(xb);
        lemma_op_range(yb);
        lemma_major_dominates(xb, yb);
        assert(((xb >> 112) & 0x7fff) <= 0x7fff && ((yb >> 112) & 0x7fff) <= 0x7fff) by (
        bit_vector);
    }
    // Extract the exponent and significand fields.
    let mut xexp: i32 = (((xb >> 112) & 0x7fff) as u64) as i32;
    let mut yexp: i32 = (((yb >> 112) & 0x7fff) as u64) as i32;
    let mut xsig: u128 = xb & SIGNIFICAND_MASK;
    let mut ysig: u128 = yb & SIGNIFICAND_MASK;
    // Normalize any denormals, adjusting the exponent accordingly.
    if xexp == 0 {
        proof {
            assert(xb & 0xffff_ffff_ffff_ffff_ffff_ffff_ffff != 0) by (bit_vector)
                requires
                    (xb >> 112) & 0x7fff == 0,
                    xb & 0x7fff_ffff_ffff_ffff_ffff_ffff_ffff_ffff != 0,
            ;
        }
        xexp = normalize(&mut xsig);
    }
    if yexp == 0 {
        proof {
            assert(yb & 0xffff_ffff_ffff_ffff_ffff_ffff_ffff != 0) by (bit_vector)
                requires
                    (yb >> 112) & 0x7fff == 0,
                    yb & 0x7fff_ffff_ffff_ffff_ffff_ffff_ffff_ffff != 0,
            ;
        }
        yexp = normalize(&mut ysig);
    }
    proof {
        assert(xexp as int == op_exp(xb) && yexp as int == op_exp(yb));
        assert(-112 <= yexp as int <= op_exp(xb) && xexp as int <= 0x7ffe);
    }
    // The result sign is the major operand's; opposite signs make this
    // an effective subtraction.
    let result_sign = xb & SIGN_BIT;
    let subtraction = (xb ^ yb) & SIGN_BIT != 0;
    proof {
        assert((xb & SIGN_BIT) == 0 || (xb & SIGN_BIT)
            == 0x8000_0000_0000_0000_0000_0000_0000_0000) by (bit_vector);
    }
    // Set the implicit bit and reserve round, guard and sticky below.
    xsig = (xsig | IMPLICIT_BIT) << 3;
    ysig = (ysig | IMPLICIT_BIT) << 3;
    proof {
        assert(xsig == op_sig(xb) && ysig == op_sig(yb));
    }
    // Align the minor significand by the exponent difference, with a
    // sticky bottom bit to keep rounding correct.
    let align: i32 = xexp - yexp;
    let ysig2: u128;
    if align <= 0 {
        ysig2 = ysig;
    } else if align < 128 {
        let sticky = (xsig << ((128 - align) as u128)) != 0;
        ysig2 = (ysig >> (align as u128)) | (if sticky {
            1u128
        } else {
            0u128
        });
    } else {
        // The minor operand is shifted out entirely; it is known
        // nonzero, so it contributes exactly a sticky bit.
        ysig2 = 1;
    }
    proof {
        assert(ysig2 == aligned_minor(op_sig(xb), op_sig(yb), op_exp(xb) - op_exp(yb)));
        if align <= 0 {
            assert(op_exp(yb) == op_exp(xb));
            assert(ysig2 <= xsig);
        } else if align < 128 {
            let sh = align as u128;
            assert(((ysig >> sh) | 1) < 0x8_0000_0000_0000_0000_0000_0000_0000 && ((ysig >> sh)
                | 0) < 0x8_0000_0000_0000_0000_0000_0000_0000) by (bit_vector)
                requires
                    ysig < 0x10_0000_0000_0000_0000_0000_0000_0000,
                    1 <= sh < 128,
            ;
        }
        assert(xsig >= GRS_IMPLICIT_BIT);
        assert(ysig2 <= xsig && ysig2 < GRS_CARRY_BIT);
    }
    if subtraction {
        let mut dsig = xsig - ysig2;
        // Exact cancellation gives canonical +0.
        if dsig == 0 {
            return (0u128, false);
        }
        // Partial cancellation: shift left and adjust the exponent.
        if dsig < GRS_IMPLICIT_BIT {
            norm_loop(&mut dsig, &mut xexp, GRS_IMPLICIT_BIT);
        }
        proof {
            if xsig - ysig2 < GRS_IMPLICIT_BIT {
                lemma_spec_norm((xsig - ysig2) as u128, op_exp(xb), GRS_IMPLICIT_BIT);
                let k = (op_exp(xb) - spec_norm(
                    (xsig - ysig2) as u128,
                    op_exp(xb),
                    GRS_IMPLICIT_BIT,
                ).1) as nat;
                lemma_pow2_layout();
                lemma_pow2_pos(k);
                assert(pow2(k) <= (xsig - ysig2) * pow2(k)) by (nonlinear_arith)
                    requires
                        1 <= xsig - ysig2,
                        pow2(k) > 0,
                ;
                lemma_pow2_index_below(k, 116);
            }
            assert(-300 <= xexp <= 40000);
        }
        round_pack(dsig, xexp, result_sign, mode)
    } else {
        let mut ssig = xsig + ysig2;
        // A carry out of the significand: shift right once, keeping the
        // dropped bit sticky, and bump the exponent.
        if ssig & GRS_CARRY_BIT != 0 {
            let sticky = ssig & 1;
            ssig = (ssig >> 1) | sticky;
            xexp = xexp + 1;
        }
        round_pack(ssig, xexp, result_sign, mode)
    }
}

/// Addition of two binary128 values under an explicit rounding mode.
/// Returns the IEEE-754 sum and whether it was inexact: precision was
/// discarded in rounding, or the sum overflowed to infinity.
pub fn add_round(x: Float128, y: Float128, mode: RoundMode) -> (r: (Float128, bool))
    ensures
        r.0@ == spec_add_bits(x@, y@, mode),
        r.1 == spec_add_inexact(x@, y@, mode),
{
    let xbits = x.to_bits();
    let ybits = y.to_bits();
    let xabs = xbits & ABS_MASK;
    let yabs = ybits & ABS_MASK;
    // Special values: NaN, infinity and zero short-circuit here.
    if xabs >= INF_REP || yabs >= INF_REP || xabs == 0 || yabs == 0 {
        // NaN + anything = that NaN, quieted.
        if xabs > INF_REP {
            return (Float128::from_bits(xbits | QUIET_BIT), false);
        }
        // anything + NaN = that NaN, quieted.
        if yabs > INF_REP {
            return (Float128::from_bits(ybits | QUIET_BIT), false);
        }
        if xabs == INF_REP {
            // +/-infinity + -/+infinity = canonical quiet NaN.
            if (xbits ^ ybits) == SIGN_BIT {
                return (Float128::from_bits(QNAN_REP), false);
            }
            // +/-infinity + anything remaining = +/-infinity.
            return (x, false);
        }
        // anything remaining + +/-infinity = +/-infinity.
        if yabs == INF_REP {
            return (y, false);
        }
        if xabs == 0 {
            // zero + zero: AND the patterns, so only -0 + -0 keeps the
            // negative sign.
            if yabs == 0 {
                return (Float128::from_bits(xbits & ybits), false);
            }
            // zero + anything = anything.
            return (y, false);
        }
        // anything + zero = anything.
        return (x, false);
    }
    let (bits, inexact) = add_general(xbits, ybits, mode);
    (Float128::from_bits(bits), inexact)
}

/// Subtraction under an explicit rounding mode: addition of the second
/// operand with its sign bit flipped, which is exact IEEE-754
/// subtraction. Returns the difference and whether it was inexact.
pub fn sub_round(x: Float128, y: Float128, mode: RoundMode) -> (r: (Float128, bool))
    ensures
        r.0@ == spec_sub_bits(x@, y@, mode),
        r.1 == spec_sub_inexact(x@, y@, mode),
{
    add_round(x, y.negate(), mode)
}

/// Addition under the ambient rounding mode, signalling "inexact" to
/// the floating-point environment when precision was discarded.
pub fn addt3(x: Float128, y: Float128) -> (r: Float128)
    ensures
        r@ == spec_add_bits(x@, y@, RoundMode::ToNearest),
{
    let mode = fe_getround();
    let (r, inexact) = add_round(x, y, mode);
    if inexact {
        fe_raise_inexact();
    }
    r
}

impl core::ops::Add for Float128 {
    type Output = Float128;

    /// `+` is addition under the ambient rounding mode.
    fn add(self, rhs: Float128) -> (r: Float128)
        ensures
            r@ == spec_add_bits(self@, rhs@, RoundMode::ToNearest),
    {
        let r = addt3(self, rhs);
        proof {
            lemma_spec_from_bits(spec_add_bits(self@, rhs@, RoundMode::ToNearest));
            lemma_bits_determine_value(
                r,
                spec_from_bits(spec_add_bits(self@, rhs@, RoundMode::ToNearest)),
            );
        }
        r
    }
}

impl vstd::std_specs::ops::AddSpecImpl for Float128 {
    open spec fn obeys_add_spec() -> bool {
        true
    }

    open spec fn add_req(self, rhs: Float128) -> bool {
        true
    }

    open spec fn add_spec(self, rhs: Float128) -> Float128 {
        spec_from_bits(spec_add_bits(self@, rhs@, RoundMode::ToNearest))
    }
}

impl core::ops::Sub for Float128 {
    type Output = Float128;

    /// `-` is subtraction under the ambient rounding mode.
    fn sub(self, rhs: Float128) -> (r: Float128)
        ensures
            r@ == spec_sub_bits(self@, rhs@, RoundMode::ToNearest),
    {
        let r = subt3(self, rhs);
        proof {
            lemma_spec_from_bits(spec_sub_bits(self@, rhs@, RoundMode::ToNearest));
            lemma_bits_determine_value(
                r,
                spec_from_bits(spec_sub_bits(self@, rhs@, RoundMode::ToNearest)),
            );
        }
        r
    }
}

impl vstd::std_specs::ops::SubSpecImpl for Float128 {
    open spec fn obeys_sub_spec() -> bool {
        true
    }

    open spec fn sub_req(self, rhs: Float128) -> bool {
        true
    }

    open spec fn sub_spec(self, rhs: Float128) -> Float128 {
        spec_from_bits(spec_sub_bits(self@, rhs@, RoundMode::ToNearest))
    }
}

/// Subtraction under the ambient rounding mode: addition of the negated
/// second operand, for every operand class. A NaN keeps its payload and
/// quiet-bit state under the sign flip.
pub fn subt3(x: Float128, y: Float128) -> (r: Float128)
    ensures
        r@ == spec_sub_bits(x@, y@, RoundMode::ToNearest),
        r@ == spec_add_bits(x@, negated_bits(y@), RoundMode::ToNearest),
{
    let mode = fe_getround();
    let (r, inexact) = sub_round(x, y, mode);
    if inexact {
        fe_raise_inexact();
    }
    r
}

} // verus!
