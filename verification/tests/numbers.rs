use rlox::number::{at_most, equal, less, nan, negate};
use rlox::text::{decimal_text, signed_decimal_text};

fn samples() -> Vec<f64> {
    vec![
        0.0,
        -0.0,
        1.0,
        -1.0,
        0.5,
        -0.5,
        1.0e300,
        -1.0e300,
        5.0e-324,
        -5.0e-324,
        f64::MAX,
        f64::MIN,
        f64::INFINITY,
        f64::NEG_INFINITY,
        f64::NAN,
        -f64::NAN,
        3.0,
        2.9999999999999996,
    ]
}

#[test]
fn equality_on_bits_is_equality_of_doubles() {
    for a in samples() {
        for b in samples() {
            assert_eq!(equal(a.to_bits(), b.to_bits()), a == b, "{} == {}", a, b);
        }
    }
}

#[test]
fn order_on_bits_is_order_of_doubles() {
    for a in samples() {
        for b in samples() {
            assert_eq!(less(a.to_bits(), b.to_bits()), a < b, "{} < {}", a, b);
            assert_eq!(at_most(a.to_bits(), b.to_bits()), a <= b, "{} <= {}", a, b);
        }
    }
}

#[test]
fn nan_is_told_by_its_bits() {
    for a in samples() {
        assert_eq!(nan(a.to_bits()), a.is_nan());
    }
    assert!(nan(0x7ff0_0000_0000_0001));
    assert!(!nan(0x7ff0_0000_0000_0000));
    assert!(nan(0xffff_ffff_ffff_ffff));
    assert!(!nan(0xfff0_0000_0000_0000));
}

#[test]
fn negation_changes_the_sign_alone() {
    for a in samples() {
        assert_eq!(negate(a.to_bits()), (-a).to_bits());
    }
    assert_eq!(f64::from_bits(negate(2.5f64.to_bits())), -2.5);
    assert_eq!(negate(0), 0x8000_0000_0000_0000);
    assert_eq!(negate(0x8000_0000_0000_0000), 0);
}

#[test]
fn zeros_are_equal_and_neither_is_less() {
    let plus = 0.0f64.to_bits();
    let minus = (-0.0f64).to_bits();
    assert!(equal(plus, minus));
    assert!(!less(minus, plus));
    assert!(!less(plus, minus));
    assert!(at_most(minus, plus));
    assert!(at_most(plus, minus));
}

#[test]
fn decimal_numerals() {
    assert_eq!(decimal_text(0), "0");
    assert_eq!(decimal_text(7), "7");
    assert_eq!(decimal_text(10), "10");
    assert_eq!(decimal_text(1234567890), "1234567890");
    assert_eq!(decimal_text(u64::MAX), "18446744073709551615");
    assert_eq!(signed_decimal_text(0), "0");
    assert_eq!(signed_decimal_text(42), "42");
    assert_eq!(signed_decimal_text(-42), "-42");
    assert_eq!(signed_decimal_text(i32::MAX), "2147483647");
    assert_eq!(signed_decimal_text(i32::MIN), "-2147483648");
}
