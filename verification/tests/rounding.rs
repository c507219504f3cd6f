use quadfloat::arith::{add_round, addt3, normalize, sub_round, subt3};
use quadfloat::fenv::RoundMode;
use quadfloat::rep::{Float128, INF_REP, ONE_REP, SIGN_BIT};

fn bits_of_add(x: u128, y: u128) -> u128 {
    addt3(Float128::from_bits(x), Float128::from_bits(y)).to_bits()
}

fn add_mode(x: u128, y: u128, mode: RoundMode) -> (u128, bool) {
    let (r, inexact) = add_round(Float128::from_bits(x), Float128::from_bits(y), mode);
    (r.to_bits(), inexact)
}

// 0.5 + 2^-113, the closest value above one half: adding it to a value
// near 1 puts the guard bit exactly on a tie.
const HALF_PLUS_ULP: u128 = (0x3ffe << 112) | 1;

#[test]
fn tie_with_even_low_bit_does_not_increment() {
    // 1.0 + (0.5 + 2^-113): guard/round/sticky 0b100, retained low bit 0.
    let expected = (0x3fff_u128 << 112) | (1 << 111); // exactly 1.5
    let (r, inexact) = add_mode(ONE_REP, HALF_PLUS_ULP, RoundMode::ToNearest);
    assert_eq!(r, expected);
    assert!(inexact);
}

#[test]
fn tie_with_odd_low_bit_increments() {
    // (1.0 + 2^-112) + (0.5 + 2^-113): a tie with retained low bit 1.
    let expected = (0x3fff_u128 << 112) | (1 << 111) | 2;
    let (r, inexact) = add_mode(ONE_REP | 1, HALF_PLUS_ULP, RoundMode::ToNearest);
    assert_eq!(r, expected);
    assert!(inexact);
}

#[test]
fn overflow_returns_signed_infinity_and_is_inexact() {
    let max_finite = INF_REP - 1;
    assert_eq!(
        add_mode(max_finite, max_finite, RoundMode::ToNearest),
        (INF_REP, true)
    );
    assert_eq!(
        add_mode(SIGN_BIT | max_finite, SIGN_BIT | max_finite, RoundMode::ToNearest),
        (SIGN_BIT | INF_REP, true)
    );
}

#[test]
fn denormal_difference_of_close_normals() {
    // (smallest normal + one ulp) - smallest normal = smallest denormal:
    // exponent field 0, significand 1, and the result is exact.
    let min_normal: u128 = 1 << 112;
    let b = Float128::from_bits(min_normal | 1);
    let a = Float128::from_bits(min_normal);
    let d = subt3(b, a).to_bits();
    assert_eq!(d, 1);
    assert_eq!((d >> 112) & 0x7fff, 0);
    let (_, inexact) = sub_round(b, a, RoundMode::ToNearest);
    assert!(!inexact);
}

#[test]
fn denormal_addition_is_exact() {
    assert_eq!(bits_of_add(3, 5), 8);
    assert_eq!(bits_of_add(SIGN_BIT | 3, SIGN_BIT | 5), SIGN_BIT | 8);
}

#[test]
fn directed_rounding_for_positive_results() {
    // 1.0 plus the smallest denormal: far below the guard bit, so the
    // sum is inexact and only grows under upward rounding.
    assert_eq!(add_mode(ONE_REP, 1, RoundMode::ToNearest), (ONE_REP, true));
    assert_eq!(add_mode(ONE_REP, 1, RoundMode::Upward), (ONE_REP + 1, true));
    assert_eq!(add_mode(ONE_REP, 1, RoundMode::Downward), (ONE_REP, true));
    assert_eq!(add_mode(ONE_REP, 1, RoundMode::TowardZero), (ONE_REP, true));
}

#[test]
fn directed_rounding_for_negative_results() {
    let neg_one = SIGN_BIT | ONE_REP;
    let neg_tiny = SIGN_BIT | 1;
    assert_eq!(
        add_mode(neg_one, neg_tiny, RoundMode::Downward),
        (SIGN_BIT | (ONE_REP + 1), true)
    );
    assert_eq!(
        add_mode(neg_one, neg_tiny, RoundMode::Upward),
        (neg_one, true)
    );
    assert_eq!(
        add_mode(neg_one, neg_tiny, RoundMode::TowardZero),
        (neg_one, true)
    );
}

#[test]
fn rounding_can_carry_into_the_exponent() {
    // (2 - 2^-112) + (2^-110 - huge sticky...) — simpler: largest
    // significand plus a half-ulp rounds up into the next binade.
    let almost_two = ONE_REP | ((1 << 112) - 1); // significand all ones
    let half_ulp = (0x3ffe_u128 - 112) << 112; // 2^-113 relative to 1.0
    let (r, inexact) = add_mode(almost_two, half_ulp, RoundMode::ToNearest);
    assert_eq!(r, (0x4000_u128) << 112); // exactly 2.0
    assert!(inexact);
}

#[test]
fn exact_subtraction_across_a_binade() {
    // 1 - 2^-113 = 0.111...1 with 112 fraction bits: exactly
    // representable one binade down.
    let tiny = (0x3fff_u128 - 113) << 112;
    let expected = (0x3ffe_u128 << 112) | ((1 << 112) - 1);
    let x = Float128::from_bits(ONE_REP);
    let y = Float128::from_bits(tiny);
    let (r, inexact) = sub_round(x, y, RoundMode::ToNearest);
    assert_eq!(r.to_bits(), expected);
    assert!(!inexact);
}

#[test]
fn subtraction_tie_rounds_to_even() {
    // 1 - 2^-114 is halfway between 1 - 2^-113 and 1: ties-to-even picks
    // 1.0, whose retained low bit is 0.
    let tiny = (0x3fff_u128 - 114) << 112;
    let x = Float128::from_bits(ONE_REP);
    let y = Float128::from_bits(tiny);
    let (r, inexact) = sub_round(x, y, RoundMode::ToNearest);
    assert_eq!(r.to_bits(), ONE_REP);
    assert!(inexact);
    // Toward zero keeps the truncated value just below 1.
    let (rz, _) = sub_round(x, y, RoundMode::TowardZero);
    assert_eq!(rz.to_bits(), (0x3ffe_u128 << 112) | ((1 << 112) - 1));
}

#[test]
fn operators_follow_the_entry_points() {
    let a = Float128::from_bits(ONE_REP);
    let b = Float128::from_bits(0x4000 << 112); // 2.0
    assert_eq!((a + b).to_bits(), (0x4000_u128 << 112) | (1 << 111)); // 3.0
    assert_eq!((b - a).to_bits(), ONE_REP);
    assert_eq!((a - b).to_bits(), SIGN_BIT | ONE_REP);
}

#[test]
fn normalize_positions_the_implicit_bit() {
    let mut sig: u128 = 1;
    let e = normalize(&mut sig);
    assert_eq!(sig, 1 << 112);
    assert_eq!(e, -111);
    let mut sig2: u128 = 3 << 110;
    let e2 = normalize(&mut sig2);
    assert_eq!(sig2, 3 << 111);
    assert_eq!(e2, 0);
}
