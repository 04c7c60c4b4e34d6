use raytracer::single::{abs, le, lt, min, nan, neg, positive, INFINITY, ONE, SIGN, ZERO};

fn samples() -> Vec<f32> {
    vec![
        0.0,
        -0.0,
        1.0,
        -1.0,
        0.5,
        -0.5,
        1.0e-4,
        -1.0e-4,
        1.0001,
        255.0,
        f32::MIN_POSITIVE,
        -f32::MIN_POSITIVE,
        f32::from_bits(1),
        f32::from_bits(SIGN | 1),
        f32::MAX,
        f32::MIN,
        f32::INFINITY,
        f32::NEG_INFINITY,
        f32::NAN,
        f32::from_bits(0xffc0_0000),
        f32::from_bits(0x7f80_0001),
    ]
}

#[test]
fn constants_are_the_patterns_they_name() {
    assert_eq!(ZERO, 0.0f32.to_bits());
    assert_eq!(ONE, 1.0f32.to_bits());
    assert_eq!(SIGN, (-0.0f32).to_bits());
    assert_eq!(INFINITY, f32::INFINITY.to_bits());
}

#[test]
fn comparisons_agree_with_the_hardware() {
    for a in samples() {
        for b in samples() {
            assert_eq!(lt(a.to_bits(), b.to_bits()), a < b, "{} < {}", a, b);
            assert_eq!(le(a.to_bits(), b.to_bits()), a <= b, "{} <= {}", a, b);
        }
    }
}

#[test]
fn classification_agrees_with_the_hardware() {
    for a in samples() {
        assert_eq!(nan(a.to_bits()), a.is_nan(), "{}", a);
        assert_eq!(positive(a.to_bits()), a > 0.0, "{}", a);
    }
}

#[test]
fn sign_operations_agree_with_the_hardware() {
    for a in samples() {
        assert_eq!(abs(a.to_bits()), a.abs().to_bits(), "{}", a);
        assert_eq!(neg(a.to_bits()), (-a).to_bits(), "{}", a);
    }
}

#[test]
fn min_agrees_with_the_hardware() {
    for a in samples() {
        for b in samples() {
            let expected = a.min(b);
            let found = f32::from_bits(min(a.to_bits(), b.to_bits()));
            if expected.is_nan() {
                assert!(found.is_nan(), "min({}, {})", a, b);
            } else {
                assert_eq!(found, expected, "min({}, {})", a, b);
            }
        }
    }
}

#[test]
fn negative_zero_is_not_below_zero() {
    assert!(!lt(SIGN, ZERO));
    assert!(le(SIGN, ZERO));
    assert!(le(ZERO, SIGN));
    assert!(!positive(SIGN));
}

#[test]
fn nothing_compares_with_nan() {
    let nan_bits = f32::NAN.to_bits();
    assert!(!lt(nan_bits, ONE));
    assert!(!lt(ONE, nan_bits));
    assert!(!le(nan_bits, nan_bits));
    assert_eq!(min(nan_bits, ONE), ONE);
    assert_eq!(min(ONE, nan_bits), ONE);
}

#[test]
fn every_operation_agrees_with_the_hardware_on_patterns_of_all_kinds() {
    let mut state = 7u64;
    let mut draw = move || {
        state = state.wrapping_mul(6364136223846793005).wrapping_add(1442695040888963407);
        (state >> 32) as u32
    };
    for round in 0..500_000u32 {
        let a = draw();
        // Every other partner lies near `a`, so that close calls are made.
        let b = if round % 2 == 0 { draw() } else { a.wrapping_add(draw() % 5).wrapping_sub(2) };
        let (x, y) = (f32::from_bits(a), f32::from_bits(b));
        assert_eq!(lt(a, b), x < y, "{:#x} < {:#x}", a, b);
        assert_eq!(le(a, b), x <= y, "{:#x} <= {:#x}", a, b);
        assert_eq!(nan(a), x.is_nan(), "{:#x}", a);
        assert_eq!(positive(a), x > 0.0, "{:#x}", a);
        assert_eq!(abs(a), x.abs().to_bits(), "{:#x}", a);
        assert_eq!(neg(a), (-x).to_bits(), "{:#x}", a);
        let least = f32::from_bits(min(a, b));
        if x.is_nan() && y.is_nan() {
            assert!(least.is_nan());
        } else {
            assert_eq!(least, x.min(y), "min({:#x}, {:#x})", a, b);
        }
    }
}
