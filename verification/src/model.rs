//! The mathematical model of binary128 addition: spec functions that
//! state, stage by stage, what the kernel computes — special-value
//! resolution, denormal normalization, significand alignment with
//! guard/round/sticky tracking, renormalization after cancellation or
//! carry, overflow and underflow handling, and final rounding.
//!
//! Every executable function of the kernel is verified against these
//! functions, and the algebraic laws in [`crate::laws`] are proved of
//! them.

use crate::fenv::RoundMode;
use crate::rep::{
    abs_bits, exp_field, is_finite_bits, is_inf_bits, is_nan_bits, is_zero_bits, negated_bits,
    sig_field,
    sign_field, IMPLICIT_BIT, INF_REP, MAX_EXPONENT, QNAN_REP, QUIET_BIT, SIGNIFICAND_MASK,
    SIGN_BIT,
};
use vstd::arithmetic::power2::*;
use vstd::prelude::*;

verus! {

/// 2^115: the implicit bit after the 3-bit shift that reserves the
/// round, guard and sticky bits.
pub const GRS_IMPLICIT_BIT: u128 = 0x8_0000_0000_0000_0000_0000_0000_0000;

/// 2^116: a carry out of the shifted significand lands here.
pub const GRS_CARRY_BIT: u128 = 0x10_0000_0000_0000_0000_0000_0000_0000;

/// How far a significand still is from the normalization threshold;
/// only a termination measure.
pub open spec fn norm_measure(sig: u128, t: u128) -> int {
    if sig >= t {
        0
    } else {
        t - sig
    }
}

/// Left-normalization: doubles `sig`, decrementing `exp` once per step,
/// until `sig` reaches the threshold `t`. With `t` the implicit-bit
/// position this is denormal normalization; with `t` the shifted
/// implicit bit it is renormalization after subtractive cancellation.
pub open spec fn spec_norm(sig: u128, exp: int, t: u128) -> (u128, int)
    decreases norm_measure(sig, t),
        when 0 < sig && t <= GRS_IMPLICIT_BIT
{
    if sig >= t {
        (sig, exp)
    } else {
        spec_norm((2 * sig) as u128, exp - 1, t)
    }
}

/// Biased exponent of a nonzero finite operand once denormals are
/// normalized: a denormal's effective exponent comes out one less than
/// the minimum normal exponent per shift step, starting from 1.
pub open spec fn op_exp(b: u128) -> int {
    if exp_field(b) == 0 {
        spec_norm(sig_field(b), 1, IMPLICIT_BIT).1
    } else {
        exp_field(b) as int
    }
}

/// Significand of a nonzero finite operand with the implicit bit set,
/// shifted left 3 bits to reserve round, guard and sticky.
pub open spec fn op_sig(b: u128) -> u128 {
    let s = if exp_field(b) == 0 {
        spec_norm(sig_field(b), 1, IMPLICIT_BIT).0
    } else {
        sig_field(b)
    };
    (s | IMPLICIT_BIT) << 3
}

/// The minor significand aligned to the major exponent. For a shift
/// inside the width a sticky bit is ORed in, derived from the low bits
/// of the major significand; at or beyond the width the minor operand
/// contributes only a forced sticky bit, since it is known nonzero.
pub open spec fn aligned_minor(xsig: u128, ysig: u128, align: int) -> u128 {
    if align <= 0 {
        ysig
    } else if align < 128 {
        let sticky: u128 = if xsig << ((128 - align) as u128) != 0 {
            1
        } else {
            0
        };
        (ysig >> (align as u128)) | sticky
    } else {
        1
    }
}

/// Pre-rounding shift of a denormal result: the significand moves right
/// until the exponent field can be zero, ORing a sticky bit from the
/// bits shifted out.
pub open spec fn denorm_sig(sig: u128, shift: int) -> u128 {
    if shift >= 128 {
        if sig != 0 {
            1
        } else {
            0
        }
    } else {
        let sticky: u128 = if sig << ((128 - shift) as u128) != 0 {
            1
        } else {
            0
        };
        (sig >> (shift as u128)) | sticky
    }
}

/// The rounding-mode policy applied to a packed result, given the low
/// three round/guard/sticky bits. An increment may carry into the
/// exponent field and even into infinity, which is correct IEEE-754
/// behavior.
pub open spec fn rounded(packed: u128, rgs: u128, sign: u128, mode: RoundMode) -> u128 {
    match mode {
        RoundMode::ToNearest => if rgs > 4 {
            (packed + 1) as u128
        } else if rgs == 4 {
            (packed + (packed & 1)) as u128
        } else {
            packed
        },
        RoundMode::Downward => if sign != 0 && rgs != 0 {
            (packed + 1) as u128
        } else {
            packed
        },
        RoundMode::Upward => if sign == 0 && rgs != 0 {
            (packed + 1) as u128
        } else {
            packed
        },
        RoundMode::TowardZero => packed,
    }
}

/// Overflow and underflow handling, composition of the final pattern,
/// and rounding. Overflow to infinity is terminal and necessarily
/// inexact, since the exact sum exceeds every finite value; a
/// nonpositive exponent first shifts the significand into denormal
/// position. The second component says whether the result was inexact.
pub open spec fn pack_round(sig: u128, exp: int, sign: u128, mode: RoundMode) -> (u128, bool) {
    if exp >= MAX_EXPONENT as int {
        (INF_REP | sign, true)
    } else {
        let s = if exp <= 0 {
            denorm_sig(sig, 1 - exp)
        } else {
            sig
        };
        let e: int = if exp <= 0 {
            0
        } else {
            exp
        };
        let rgs = s & 7;
        let packed = ((s >> 3) & SIGNIFICAND_MASK) | ((e as u128) << 112) | sign;
        (rounded(packed, rgs, sign, mode), rgs != 0)
    }
}

/// The general path with `|xb| >= |yb|`, both nonzero and finite: the
/// result sign is the major operand's; opposite signs subtract the
/// aligned significands (an exactly zero difference is canonical +0),
/// same signs add them, shifting right once if the sum carries.
pub open spec fn spec_add_ordered(xb: u128, yb: u128, mode: RoundMode) -> (u128, bool) {
    let xexp = op_exp(xb);
    let yexp = op_exp(yb);
    let xsig = op_sig(xb);
    let ysig = op_sig(yb);
    let sign = sign_field(xb);
    let ysig2 = aligned_minor(xsig, ysig, xexp - yexp);
    if (xb ^ yb) & SIGN_BIT != 0 {
        if xsig == ysig2 {
            (0u128, false)
        } else {
            let d = (xsig - ysig2) as u128;
            let (s, e) = if d < GRS_IMPLICIT_BIT {
                spec_norm(d, xexp, GRS_IMPLICIT_BIT)
            } else {
                (d, xexp)
            };
            pack_round(s, e, sign, mode)
        }
    } else {
        let s0 = (xsig + ysig2) as u128;
        if s0 & GRS_CARRY_BIT != 0 {
            pack_round((s0 >> 1) | (s0 & 1), xexp + 1, sign, mode)
        } else {
            pack_round(s0, xexp, sign, mode)
        }
    }
}

/// The complete addition on bit patterns. Special values resolve first,
/// in the order: NaN (quieted, payload kept), infinity (opposite
/// infinities give the canonical quiet NaN), zero (two zeros AND their
/// patterns, so only -0 + -0 keeps the negative sign). Otherwise the
/// larger-magnitude operand becomes the major operand of the general
/// path. The second component says whether "inexact" is signalled.
pub open spec fn spec_add_full(xb: u128, yb: u128, mode: RoundMode) -> (u128, bool) {
    if is_nan_bits(xb) {
        ((xb | QUIET_BIT), false)
    } else if is_nan_bits(yb) {
        ((yb | QUIET_BIT), false)
    } else if is_inf_bits(xb) {
        if (xb ^ yb) == SIGN_BIT {
            (QNAN_REP, false)
        } else {
            (xb, false)
        }
    } else if is_inf_bits(yb) {
        (yb, false)
    } else if is_zero_bits(xb) {
        if is_zero_bits(yb) {
            ((xb & yb), false)
        } else {
            (yb, false)
        }
    } else if is_zero_bits(yb) {
        (xb, false)
    } else if abs_bits(yb) > abs_bits(xb) {
        spec_add_ordered(yb, xb, mode)
    } else {
        spec_add_ordered(xb, yb, mode)
    }
}

/// The resulting bit pattern of addition.
pub open spec fn spec_add_bits(xb: u128, yb: u128, mode: RoundMode) -> u128 {
    spec_add_full(xb, yb, mode).0
}

/// Whether addition signals "inexact".
pub open spec fn spec_add_inexact(xb: u128, yb: u128, mode: RoundMode) -> bool {
    spec_add_full(xb, yb, mode).1
}

/// Subtraction is addition of the second operand with its sign flipped.
pub open spec fn spec_sub_bits(xb: u128, yb: u128, mode: RoundMode) -> u128 {
    spec_add_bits(xb, negated_bits(yb), mode)
}

/// Whether subtraction signals "inexact".
pub open spec fn spec_sub_inexact(xb: u128, yb: u128, mode: RoundMode) -> bool {
    spec_add_inexact(xb, negated_bits(yb), mode)
}

/// Concrete powers of two at the positions the layout cares about.
pub proof fn lemma_pow2_layout()
    ensures
        pow2(3) == 8,
        pow2(112) == IMPLICIT_BIT,
        pow2(113) == 2 * IMPLICIT_BIT,
        pow2(115) == GRS_IMPLICIT_BIT,
        pow2(116) == GRS_CARRY_BIT,
{
    lemma2_to64();
    lemma2_to64_rest();
    lemma_pow2_adds(64, 48);
    lemma_pow2_adds(64, 49);
    lemma_pow2_adds(64, 51);
    lemma_pow2_adds(64, 52);
}

/// Powers of two are injective and increasing, read backwards.
pub proof fn lemma_pow2_index_below(k: nat, b: nat)
    requires
        pow2(k) < pow2(b),
    ensures
        k < b,
{
    if k > b {
        lemma_pow2_strictly_increases(b, k);
    }
}

/// What normalization guarantees: the result sits in `[t, 2t)` whenever
/// the input was below `2t`, the exponent only decreases (strictly, if
/// a shift happened), and the pair records an exact product by a power
/// of two.
pub proof fn lemma_spec_norm(sig: u128, exp: int, t: u128)
    requires
        0 < sig,
        0 < t,
        t <= GRS_IMPLICIT_BIT,
    ensures
        spec_norm(sig, exp, t).0 >= t,
        spec_norm(sig, exp, t).0 >= sig,
        sig < 2 * t ==> spec_norm(sig, exp, t).0 < 2 * t,
        spec_norm(sig, exp, t).1 <= exp,
        sig < t ==> spec_norm(sig, exp, t).1 < exp,
        spec_norm(sig, exp, t).0 == sig * pow2((exp - spec_norm(sig, exp, t).1) as nat),
    decreases norm_measure(sig, t),
{
    if sig >= t {
        lemma2_to64();
        assert(spec_norm(sig, exp, t) == (sig, exp));
        assert((exp - spec_norm(sig, exp, t).1) as nat == 0);
        assert(sig * pow2(0) == sig) by (nonlinear_arith)
            requires
                pow2(0) == 1,
        ;
    } else {
        lemma_spec_norm((2 * sig) as u128, exp - 1, t);
        let s = spec_norm(sig, exp, t).0;
        let e = spec_norm(sig, exp, t).1;
        assert(e <= exp - 1);
        let p = pow2((exp - 1 - e) as nat);
        assert(s == (2 * sig) * p);
        lemma_pow2_unfold((exp - e) as nat);
        assert(pow2((exp - e) as nat) == 2 * p);
        assert((2 * sig) * p == sig * (2 * p)) by (nonlinear_arith);
        assert(sig * (2 * p) == sig * pow2((exp - e) as nat)) by (nonlinear_arith)
            requires
                pow2((exp - e) as nat) == 2 * p,
        ;
        assert(s == sig * pow2((exp - e) as nat));
    }
}

/// Where a nonzero finite operand's prepared exponent and significand
/// land: the exponent of a denormal reaches at most 112 below the
/// minimum normal exponent, and the prepared significand always sits in
/// `[2^115, 2^116)`.
pub proof fn lemma_op_range(b: u128)
    requires
        is_finite_bits(b),
        !is_zero_bits(b),
    ensures
        -112 <= op_exp(b) <= 0x7ffe,
        GRS_IMPLICIT_BIT <= op_sig(b) < GRS_CARRY_BIT,
{
    lemma_pow2_layout();
    let e = exp_field(b);
    let s = sig_field(b);
    assert(e <= 0x7ffe && s < 0x1_0000_0000_0000_0000_0000_0000_0000) by (bit_vector)
        requires
            e == (b >> 112) & 0x7fff,
            s == b & 0xffff_ffff_ffff_ffff_ffff_ffff_ffff,
            b & 0x7fff_ffff_ffff_ffff_ffff_ffff_ffff_ffff
                < 0x7fff_0000_0000_0000_0000_0000_0000_0000,
    ;
    if e == 0 {
        assert(s != 0) by (bit_vector)
            requires
                e == (b >> 112) & 0x7fff,
                s == b & 0xffff_ffff_ffff_ffff_ffff_ffff_ffff,
                e == 0,
                b & 0x7fff_ffff_ffff_ffff_ffff_ffff_ffff_ffff != 0,
        ;
        lemma_spec_norm(s, 1, IMPLICIT_BIT);
        let ns = spec_norm(s, 1, IMPLICIT_BIT).0;
        let ne = spec_norm(s, 1, IMPLICIT_BIT).1;
        let k = (1 - ne) as nat;
        lemma_pow2_pos(k);
        assert(pow2(k) <= s * pow2(k)) by (nonlinear_arith)
            requires
                1 <= s,
                pow2(k) > 0,
        ;
        lemma_pow2_index_below(k, 113);
        assert(-112 <= ne <= 1);
        assert((ns | 0x1_0000_0000_0000_0000_0000_0000_0000) == ns
            && 0x8_0000_0000_0000_0000_0000_0000_0000 <= (ns << 3)
            && (ns << 3) < 0x10_0000_0000_0000_0000_0000_0000_0000) by (bit_vector)
            requires
                0x1_0000_0000_0000_0000_0000_0000_0000 <= ns
                    < 0x2_0000_0000_0000_0000_0000_0000_0000,
        ;
    } else {
        assert(e >= 1);
        assert(0x8_0000_0000_0000_0000_0000_0000_0000 <= ((s
            | 0x1_0000_0000_0000_0000_0000_0000_0000) << 3) && ((s
            | 0x1_0000_0000_0000_0000_0000_0000_0000) << 3)
            < 0x10_0000_0000_0000_0000_0000_0000_0000) by (bit_vector)
            requires
                s < 0x1_0000_0000_0000_0000_0000_0000_0000,
        ;
    }
}

/// The major operand dominates: with `|xb| >= |yb|` the prepared
/// exponent of `yb` never exceeds that of `xb`, and on equal exponents
/// its prepared significand does not either. This is what makes the
/// alignment shift nonnegative and the significand subtraction safe.
pub proof fn lemma_major_dominates(xb: u128, yb: u128)
    requires
        is_finite_bits(xb),
        is_finite_bits(yb),
        !is_zero_bits(xb),
        !is_zero_bits(yb),
        abs_bits(yb) <= abs_bits(xb),
    ensures
        op_exp(yb) <= op_exp(xb),
        op_exp(yb) == op_exp(xb) ==> op_sig(yb) <= op_sig(xb),
{
    let xe = exp_field(xb);
    let ye = exp_field(yb);
    let xs = sig_field(xb);
    let ys = sig_field(yb);
    lemma_op_range(xb);
    lemma_op_range(yb);
    if xe == 0 && ye == 0 {
        assert(ys <= xs && ys != 0) by (bit_vector)
            requires
                xe == (xb >> 112) & 0x7fff,
                ye == (yb >> 112) & 0x7fff,
                xs == xb & 0xffff_ffff_ffff_ffff_ffff_ffff_ffff,
                ys == yb & 0xffff_ffff_ffff_ffff_ffff_ffff_ffff,
                xe == 0,
                ye == 0,
                yb & 0x7fff_ffff_ffff_ffff_ffff_ffff_ffff_ffff
                    <= xb & 0x7fff_ffff_ffff_ffff_ffff_ffff_ffff_ffff,
                yb & 0x7fff_ffff_ffff_ffff_ffff_ffff_ffff_ffff != 0,
        ;
        assert(xs < 0x1_0000_0000_0000_0000_0000_0000_0000 && ys
            < 0x1_0000_0000_0000_0000_0000_0000_0000) by (bit_vector)
            requires
                xs == xb & 0xffff_ffff_ffff_ffff_ffff_ffff_ffff,
                ys == yb & 0xffff_ffff_ffff_ffff_ffff_ffff_ffff,
        ;
        lemma_spec_norm_mono(ys, xs, 1, IMPLICIT_BIT);
        lemma_spec_norm(ys, 1, IMPLICIT_BIT);
        lemma_spec_norm(xs, 1, IMPLICIT_BIT);
        let nsx = spec_norm(xs, 1, IMPLICIT_BIT).0;
        let nsy = spec_norm(ys, 1, IMPLICIT_BIT).0;
        if op_exp(yb) == op_exp(xb) {
            assert(((nsy | 0x1_0000_0000_0000_0000_0000_0000_0000) << 3) <= ((nsx
                | 0x1_0000_0000_0000_0000_0000_0000_0000) << 3)) by (bit_vector)
                requires
                    nsy <= nsx,
                    nsy >= 0x1_0000_0000_0000_0000_0000_0000_0000,
                    nsx < 0x2_0000_0000_0000_0000_0000_0000_0000,
            ;
        }
    } else if xe == 0 {
        // A denormal cannot have the larger magnitude against a normal.
        assert(false) by (bit_vector)
            requires
                xe == (xb >> 112) & 0x7fff,
                ye == (yb >> 112) & 0x7fff,
                xe == 0,
                ye >= 1,
                yb & 0x7fff_ffff_ffff_ffff_ffff_ffff_ffff_ffff
                    <= xb & 0x7fff_ffff_ffff_ffff_ffff_ffff_ffff_ffff,
        ;
    } else if ye == 0 {
        assert(ys != 0) by (bit_vector)
            requires
                ye == (yb >> 112) & 0x7fff,
                ys == yb & 0xffff_ffff_ffff_ffff_ffff_ffff_ffff,
                ye == 0,
                yb & 0x7fff_ffff_ffff_ffff_ffff_ffff_ffff_ffff != 0,
        ;
        assert(ys < IMPLICIT_BIT) by (bit_vector)
            requires
                ys == yb & 0xffff_ffff_ffff_ffff_ffff_ffff_ffff,
        ;
        lemma_spec_norm(ys, 1, IMPLICIT_BIT);
        assert(op_exp(yb) < 1);
    } else {
        assert(ye < xe || (ye == xe && ys <= xs)) by (bit_vector)
            requires
                xe == (xb >> 112) & 0x7fff,
                ye == (yb >> 112) & 0x7fff,
                xs == xb & 0xffff_ffff_ffff_ffff_ffff_ffff_ffff,
                ys == yb & 0xffff_ffff_ffff_ffff_ffff_ffff_ffff,
                xb & 0x7fff_ffff_ffff_ffff_ffff_ffff_ffff_ffff
                    < 0x7fff_0000_0000_0000_0000_0000_0000_0000,
                yb & 0x7fff_ffff_ffff_ffff_ffff_ffff_ffff_ffff
                    <= xb & 0x7fff_ffff_ffff_ffff_ffff_ffff_ffff_ffff,
        ;
        if ye == xe {
            assert(((ys | 0x1_0000_0000_0000_0000_0000_0000_0000) << 3) <= ((xs
                | 0x1_0000_0000_0000_0000_0000_0000_0000) << 3)) by (bit_vector)
                requires
                    ys <= xs,
                    xs == xb & 0xffff_ffff_ffff_ffff_ffff_ffff_ffff,
            ;
        }
    }
}

/// Normalization is monotone: a smaller significand never ends with a
/// larger exponent, and with equal exponents it ends no larger.
pub proof fn lemma_spec_norm_mono(a: u128, b: u128, exp: int, t: u128)
    requires
        0 < a,
        a <= b,
        0 < t,
        t <= GRS_IMPLICIT_BIT,
    ensures
        spec_norm(a, exp, t).1 <= spec_norm(b, exp, t).1,
        spec_norm(a, exp, t).1 == spec_norm(b, exp, t).1 ==> spec_norm(a, exp, t).0 <= spec_norm(
            b,
            exp,
            t,
        ).0,
    decreases norm_measure(a, t),
{
    if b >= t {
        if a < t {
            lemma_spec_norm(a, exp, t);
        }
    } else {
        lemma_spec_norm_mono((2 * a) as u128, (2 * b) as u128, exp - 1, t);
    }
}

} // verus!
