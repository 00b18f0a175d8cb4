use hyperion::binary64::Binary64;

fn b(value: f64) -> Binary64 {
    Binary64::from_bits(value.to_bits())
}

fn specimens() -> Vec<f64> {
    vec![
        0.0,
        -0.0,
        1.0,
        -1.0,
        0.1,
        -0.1,
        0.5,
        1.35,
        -13.27,
        f64::MIN_POSITIVE,
        -f64::MIN_POSITIVE,
        f64::from_bits(1),
        -f64::from_bits(1),
        f64::MAX,
        f64::MIN,
        f64::INFINITY,
        f64::NEG_INFINITY,
        f64::NAN,
        -f64::NAN,
        f64::from_bits(0x7FF0_0000_0000_0001),
        f64::from_bits(0xFFFF_FFFF_FFFF_FFFF),
        1.0e-300,
        -1.0e300,
        std::f64::consts::PI,
    ]
}

#[test]
fn bits_round_trip() {
    for value in specimens() {
        assert_eq!(b(value).to_bits(), value.to_bits());
    }
    assert_eq!(Binary64::zero().to_bits(), 0.0f64.to_bits());
}

#[test]
fn greater_than_agrees_with_the_hardware() {
    for left in specimens() {
        for right in specimens() {
            assert_eq!(b(left).gt(&b(right)), left > right, "{left:?} > {right:?}");
        }
    }
}

#[test]
fn less_than_agrees_with_the_hardware() {
    for left in specimens() {
        for right in specimens() {
            assert_eq!(b(left).lt(&b(right)), left < right, "{left:?} < {right:?}");
        }
    }
}

#[test]
fn sign_tests_agree_with_the_hardware() {
    for value in specimens() {
        assert_eq!(b(value).is_positive(), value > 0.0, "{value:?}");
        assert_eq!(b(value).is_negative(), value < 0.0, "{value:?}");
        assert_eq!(b(value).is_zero(), value == 0.0, "{value:?}");
    }
}

#[test]
fn classification_agrees_with_the_hardware() {
    for value in specimens() {
        assert_eq!(b(value).is_nan(), value.is_nan(), "{value:?}");
        assert_eq!(b(value).is_finite(), value.is_finite(), "{value:?}");
    }
}

#[test]
fn neighbouring_encodings_are_ordered() {
    let mut bits: u64 = 0;
    let mut step: u64 = 1;
    while step < 0x7FF0_0000_0000_0000 && bits < 0x7FF0_0000_0000_0000 - step {
        let low = f64::from_bits(bits);
        let high = f64::from_bits(bits + step);
        assert!(b(high).gt(&b(low)));
        assert!(b(-low).gt(&b(-high)));
        assert_eq!(high > low, true);
        bits += step;
        step = step.saturating_mul(3).saturating_add(1);
    }
}

#[test]
fn the_two_zeros_compare_equal_but_are_told_apart() {
    assert!(!b(0.0).gt(&b(-0.0)));
    assert!(!b(-0.0).gt(&b(0.0)));
    assert!(b(0.0) != b(-0.0));
    assert!(b(f64::NAN) == b(f64::NAN));
}
