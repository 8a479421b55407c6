//! The bit-pattern comparisons against the machine's own binary64.

use sort_track::ieee::eq;
use sort_track::ieee::gt;
use sort_track::ieee::is_nan;
use sort_track::ieee::le;
use sort_track::ieee::lt;
use sort_track::ieee::neg;
use sort_track::ieee::HUNDREDTH;
use sort_track::ieee::INFINITY;
use sort_track::ieee::ONE;
use sort_track::ieee::SIGN_BIT;
use sort_track::ieee::TEN;
use sort_track::ieee::THREE_TENTHS;
use sort_track::ieee::ZERO;

fn samples() -> Vec<f64> {
    vec![
        0.0,
        -0.0,
        1.0,
        -1.0,
        0.3,
        0.30000000000000004,
        0.29999999999999993,
        10.0,
        -10.0,
        0.01,
        1e300,
        -1e300,
        5e-324,
        -5e-324,
        f64::MIN_POSITIVE,
        f64::MAX,
        f64::MIN,
        f64::INFINITY,
        f64::NEG_INFINITY,
        f64::NAN,
        -f64::NAN,
        f64::from_bits(0x7FF0_0000_0000_0001),
        f64::from_bits(0xFFFF_FFFF_FFFF_FFFF),
    ]
}

#[test]
fn constants_are_the_patterns_of_their_values() {
    assert_eq!(ZERO, 0.0f64.to_bits());
    assert_eq!(ONE, 1.0f64.to_bits());
    assert_eq!(TEN, 10.0f64.to_bits());
    assert_eq!(HUNDREDTH, 0.01f64.to_bits());
    assert_eq!(THREE_TENTHS, 0.3f64.to_bits());
    assert_eq!(INFINITY, f64::INFINITY.to_bits());
    assert_eq!(SIGN_BIT, (-0.0f64).to_bits());
}

#[test]
fn is_nan_agrees_with_the_machine() {
    for a in samples() {
        assert_eq!(is_nan(a.to_bits()), a.is_nan(), "{:?}", a);
    }
    assert!(!is_nan(INFINITY));
    assert!(is_nan(INFINITY + 1));
    assert!(!is_nan(SIGN_BIT + INFINITY));
    assert!(is_nan(SIGN_BIT + INFINITY + 1));
}

#[test]
fn order_agrees_with_the_machine() {
    for a in samples() {
        for b in samples() {
            let (x, y) = (a.to_bits(), b.to_bits());
            assert_eq!(lt(x, y), a < b, "{:?} < {:?}", a, b);
            assert_eq!(gt(x, y), a > b, "{:?} > {:?}", a, b);
            assert_eq!(le(x, y), a <= b, "{:?} <= {:?}", a, b);
            assert_eq!(eq(x, y), a == b, "{:?} == {:?}", a, b);
        }
    }
}

#[test]
fn zeros_are_equal_and_neither_is_less() {
    let (plus, minus) = (0.0f64.to_bits(), (-0.0f64).to_bits());
    assert!(eq(plus, minus));
    assert!(!lt(minus, plus));
    assert!(!lt(plus, minus));
    assert!(le(plus, minus));
    assert!(le(minus, plus));
}

#[test]
fn nan_is_in_no_order() {
    let nan = f64::NAN.to_bits();
    assert!(!lt(nan, ONE) && !lt(ONE, nan));
    assert!(!gt(nan, ONE) && !gt(ONE, nan));
    assert!(!le(nan, nan));
    assert!(!eq(nan, nan));
}

#[test]
fn neg_agrees_with_the_machine() {
    for a in samples() {
        assert_eq!(neg(a.to_bits()), (-a).to_bits(), "{:?}", a);
    }
    assert_eq!(neg(ZERO), SIGN_BIT);
    assert_eq!(neg(SIGN_BIT), ZERO);
    assert_eq!(f64::from_bits(neg(THREE_TENTHS)), -0.3);
}
