use quadfloat::arith::{add_round, addt3, subt3};
use quadfloat::fenv::{fe_getround, fe_raise_inexact, RoundMode};
use quadfloat::rep::{Float128, INF_REP, ONE_REP, QNAN_REP, QUIET_BIT, SIGN_BIT};

fn bits_of_add(x: u128, y: u128) -> u128 {
    addt3(Float128::from_bits(x), Float128::from_bits(y)).to_bits()
}

#[test]
fn bit_round_trip() {
    let pattern: u128 = 0x1234_5678_9abc_def0_0fed_cba9_8765_4321;
    assert_eq!(Float128::from_bits(pattern).to_bits(), pattern);
}

#[test]
fn negate_flips_only_the_sign() {
    let one = Float128::from_bits(ONE_REP);
    assert_eq!(one.negate().to_bits(), SIGN_BIT | ONE_REP);
    let nan = Float128::from_bits(QNAN_REP | 5);
    assert_eq!(nan.negate().to_bits(), SIGN_BIT | QNAN_REP | 5);
}

#[test]
fn oracle_stub_reports_defaults() {
    assert!(matches!(fe_getround(), RoundMode::ToNearest));
    assert_eq!(fe_raise_inexact(), 0);
}

#[test]
fn signaling_nan_is_quieted() {
    let snan = INF_REP | 1;
    assert_eq!(bits_of_add(snan, ONE_REP), INF_REP | QUIET_BIT | 1);
    assert_eq!(bits_of_add(ONE_REP, snan), INF_REP | QUIET_BIT | 1);
}

#[test]
fn quiet_nan_payload_is_preserved() {
    let qnan = QNAN_REP | 42;
    assert_eq!(bits_of_add(qnan, ONE_REP), qnan);
    assert_eq!(bits_of_add(ONE_REP, qnan), qnan);
    assert_eq!(bits_of_add(qnan, INF_REP), qnan);
}

#[test]
fn first_nan_operand_wins() {
    let a = QNAN_REP | 7;
    let b = QNAN_REP | 9;
    assert_eq!(bits_of_add(a, b), a);
    assert_eq!(bits_of_add(b, a), b);
}

#[test]
fn infinity_dominates_finite_values() {
    assert_eq!(bits_of_add(INF_REP, ONE_REP), INF_REP);
    assert_eq!(bits_of_add(ONE_REP, INF_REP), INF_REP);
    assert_eq!(bits_of_add(SIGN_BIT | INF_REP, ONE_REP), SIGN_BIT | INF_REP);
    assert_eq!(bits_of_add(INF_REP, INF_REP), INF_REP);
    assert_eq!(
        bits_of_add(SIGN_BIT | INF_REP, SIGN_BIT | INF_REP),
        SIGN_BIT | INF_REP
    );
}

#[test]
fn opposite_infinities_give_the_canonical_quiet_nan() {
    assert_eq!(bits_of_add(INF_REP, SIGN_BIT | INF_REP), QNAN_REP);
    assert_eq!(bits_of_add(SIGN_BIT | INF_REP, INF_REP), QNAN_REP);
    let inf = Float128::from_bits(INF_REP);
    assert_eq!(subt3(inf, inf).to_bits(), QNAN_REP);
}

#[test]
fn zero_sign_rules() {
    let pz: u128 = 0;
    let nz: u128 = SIGN_BIT;
    assert_eq!(bits_of_add(pz, pz), pz);
    assert_eq!(bits_of_add(pz, nz), pz);
    assert_eq!(bits_of_add(nz, pz), pz);
    assert_eq!(bits_of_add(nz, nz), nz);
}

#[test]
fn zero_is_the_identity() {
    assert_eq!(bits_of_add(ONE_REP, 0), ONE_REP);
    assert_eq!(bits_of_add(0, ONE_REP), ONE_REP);
    assert_eq!(bits_of_add(SIGN_BIT | ONE_REP, 0), SIGN_BIT | ONE_REP);
    // A denormal operand with the other zero.
    assert_eq!(bits_of_add(123, 0), 123);
    assert_eq!(bits_of_add(0, SIGN_BIT | 123), SIGN_BIT | 123);
}

#[test]
fn special_paths_are_exact() {
    let one = Float128::from_bits(ONE_REP);
    let zero = Float128::from_bits(0);
    let (r, inexact) = add_round(one, zero, RoundMode::ToNearest);
    assert_eq!(r.to_bits(), ONE_REP);
    assert!(!inexact);
}
