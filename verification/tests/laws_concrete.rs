use quadfloat::arith::{addt3, subt3};
use quadfloat::rep::{Float128, ONE_REP, QNAN_REP, SIGN_BIT};

fn bits_of_add(x: u128, y: u128) -> u128 {
    addt3(Float128::from_bits(x), Float128::from_bits(y)).to_bits()
}

fn bits_of_sub(x: u128, y: u128) -> u128 {
    subt3(Float128::from_bits(x), Float128::from_bits(y)).to_bits()
}

const TWO_REP: u128 = 0x4000 << 112;
const THREE_REP: u128 = (0x4000 << 112) | (1 << 111);
const FOUR_REP: u128 = 0x4001 << 112;
const HALF_REP: u128 = 0x3ffe << 112;

#[test]
fn simple_sums_are_exact() {
    assert_eq!(bits_of_add(ONE_REP, ONE_REP), TWO_REP);
    assert_eq!(bits_of_add(TWO_REP, TWO_REP), FOUR_REP);
    assert_eq!(bits_of_add(ONE_REP, TWO_REP), THREE_REP);
    assert_eq!(bits_of_sub(THREE_REP, ONE_REP), TWO_REP);
}

#[test]
fn adding_the_negation_cancels_to_positive_zero() {
    let samples: [u128; 5] = [
        ONE_REP,
        SIGN_BIT | ONE_REP,
        7,               // a denormal
        (77u128 << 112) | 12345,
        SIGN_BIT,        // negative zero
    ];
    for bits in samples {
        let x = Float128::from_bits(bits);
        assert_eq!(addt3(x, x.negate()).to_bits(), 0);
        assert_eq!(addt3(x.negate(), x).to_bits(), 0);
        assert_eq!(subt3(x, x).to_bits(), 0);
    }
}

#[test]
fn addition_commutes() {
    let samples: [u128; 6] = [
        ONE_REP,
        SIGN_BIT | TWO_REP,
        HALF_REP | 99,
        5,             // a denormal
        QNAN_REP | 3,  // a NaN against non-NaN operands
        SIGN_BIT,
    ];
    // The samples hold one NaN pattern at most, so no pair falls under
    // the law's two-distinct-NaNs exclusion.
    for a in samples {
        for b in samples {
            assert_eq!(bits_of_add(a, b), bits_of_add(b, a));
        }
    }
}

#[test]
fn subtraction_is_addition_of_the_negation() {
    let samples: [u128; 6] = [
        ONE_REP,
        SIGN_BIT | TWO_REP,
        HALF_REP | 99,
        5,
        QNAN_REP | 17,
        SIGN_BIT | (1 << 112),
    ];
    for a in samples {
        for b in samples {
            let x = Float128::from_bits(a);
            let y = Float128::from_bits(b);
            assert_eq!(subt3(x, y).to_bits(), addt3(x, y.negate()).to_bits());
        }
    }
}

#[test]
fn subtracting_a_nan_keeps_payload_and_quietness() {
    // The sign flip lands on the NaN, which still propagates quieted
    // with its payload intact.
    let nan = QNAN_REP | 17;
    assert_eq!(bits_of_sub(ONE_REP, nan), SIGN_BIT | QNAN_REP | 17);
    // A signaling NaN is quieted, payload kept.
    let snan = (0x7fff_u128 << 112) | 17;
    assert_eq!(bits_of_sub(ONE_REP, snan), SIGN_BIT | QNAN_REP | 17);
}

#[test]
fn partial_cancellation_renormalizes() {
    // 1.5 - 0.5 = 1.0, exactly.
    assert_eq!(bits_of_sub(ONE_REP | (1 << 111), HALF_REP), ONE_REP);
    // 2 - 1 = 1.
    assert_eq!(bits_of_sub(TWO_REP, ONE_REP), ONE_REP);
    // 1 - 2 = -1: the result takes the sign of the larger magnitude.
    assert_eq!(bits_of_sub(ONE_REP, TWO_REP), SIGN_BIT | ONE_REP);
}
