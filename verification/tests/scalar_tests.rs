use pathtracer::scalar::Scalar;

fn s(x: f32) -> Scalar {
    Scalar::from_bits(x.to_bits())
}

fn samples() -> Vec<f32> {
    let mut v = vec![
        0.0,
        -0.0,
        1.0,
        -1.0,
        0.5,
        -0.5,
        2.0,
        4.0,
        255.0,
        255.99,
        256.0,
        1e-4,
        -1e-4,
        1e-8,
        1e-40,
        -1e-40,
        3.5,
        127.99,
        128.0,
        128.5,
        1e10,
        -1e10,
        f32::MAX,
        f32::MIN,
        f32::MIN_POSITIVE,
        f32::INFINITY,
        f32::NEG_INFINITY,
        f32::NAN,
        -f32::NAN,
        f32::EPSILON,
    ];
    let mut k: u32 = 1;
    while k < 400 {
        v.push(k as f32 * 0.73 - 100.0);
        v.push((k as f32) / 3.0);
        k += 1;
    }
    v
}

fn same_number(a: f32, b: f32) -> bool {
    (a.is_nan() && b.is_nan()) || a == b
}

#[test]
fn bits_round_trip() {
    for x in samples() {
        assert_eq!(s(x).to_bits(), x.to_bits());
    }
    assert_eq!(Scalar::zero().to_bits(), 0.0f32.to_bits());
    assert_eq!(Scalar::one().to_bits(), 1.0f32.to_bits());
}

#[test]
fn is_nan_matches_native() {
    for x in samples() {
        assert_eq!(s(x).is_nan(), x.is_nan(), "{}", x);
    }
}

#[test]
fn comparisons_match_native() {
    let v = samples();
    for &a in &v {
        for &b in &v {
            assert_eq!(s(a).lt(s(b)), a < b, "{} < {}", a, b);
            assert_eq!(s(a).le(s(b)), a <= b, "{} <= {}", a, b);
            assert_eq!(s(a).gt(s(b)), a > b, "{} > {}", a, b);
            assert_eq!(s(a).ge(s(b)), a >= b, "{} >= {}", a, b);
        }
    }
}

#[test]
fn both_zeros_compare_equal() {
    assert!(!s(-0.0).lt(s(0.0)));
    assert!(!s(0.0).lt(s(-0.0)));
    assert!(s(-0.0).le(s(0.0)));
    assert!(s(0.0).le(s(-0.0)));
}

#[test]
fn nan_compares_false_with_everything() {
    for x in samples() {
        assert!(!s(f32::NAN).lt(s(x)));
        assert!(!s(x).lt(s(f32::NAN)));
        assert!(!s(f32::NAN).le(s(x)));
        assert!(!s(x).ge(s(f32::NAN)));
    }
}

#[test]
fn min_and_max_match_native() {
    let v = samples();
    for &a in &v {
        for &b in &v {
            let lo = f32::from_bits(s(a).min(s(b)).to_bits());
            let hi = f32::from_bits(s(a).max(s(b)).to_bits());
            assert!(same_number(lo, a.min(b)), "min({}, {}) = {}", a, b, lo);
            assert!(same_number(hi, a.max(b)), "max({}, {}) = {}", a, b, hi);
        }
    }
}

#[test]
fn min_and_max_skip_nan() {
    assert_eq!(s(f32::NAN).min(s(3.0)), s(3.0));
    assert_eq!(s(3.0).min(s(f32::NAN)), s(3.0));
    assert_eq!(s(f32::NAN).max(s(3.0)), s(3.0));
    assert_eq!(s(3.0).max(s(f32::NAN)), s(3.0));
    assert!(s(f32::NAN).max(s(f32::NAN)).is_nan());
}

#[test]
fn min_max_exact_values() {
    assert_eq!(s(1.0).min(s(2.0)), s(1.0));
    assert_eq!(s(1.0).max(s(2.0)), s(2.0));
    assert_eq!(s(-1.0).min(s(-2.0)), s(-2.0));
    assert_eq!(s(-1.0).max(s(-2.0)), s(-1.0));
    assert_eq!(s(f32::NEG_INFINITY).min(s(f32::MIN)), s(f32::NEG_INFINITY));
    assert_eq!(s(f32::INFINITY).max(s(f32::MAX)), s(f32::INFINITY));
}

#[test]
fn neg_and_abs_match_native() {
    for x in samples() {
        assert_eq!(s(x).neg().to_bits(), (-x).to_bits(), "{}", x);
        assert_eq!(s(x).abs().to_bits(), x.abs().to_bits(), "{}", x);
    }
}

#[test]
fn rank_value_orders_as_numbers_do() {
    let v = samples();
    for &a in &v {
        for &b in &v {
            if !a.is_nan() && !b.is_nan() {
                assert_eq!(s(a).rank_value() < s(b).rank_value(), a < b);
                assert_eq!(s(a).rank_value() == s(b).rank_value(), a == b);
            }
        }
    }
    assert_eq!(s(0.0).rank_value(), 0);
    assert_eq!(s(-0.0).rank_value(), 0);
    assert_eq!(s(1.0).rank_value(), 0x3f80_0000);
    assert_eq!(s(-1.0).rank_value(), -0x3f80_0000);
}

#[test]
fn to_u8_matches_saturating_cast() {
    for x in samples() {
        assert_eq!(s(x).to_u8(), x as u8, "{}", x);
    }
    let mut k: u32 = 0;
    while k < 3000 {
        let x = k as f32 * 0.1 - 10.0;
        assert_eq!(s(x).to_u8(), x as u8, "{}", x);
        k += 1;
    }
}

#[test]
fn to_u8_exact_values() {
    assert_eq!(s(0.0).to_u8(), 0);
    assert_eq!(s(0.999).to_u8(), 0);
    assert_eq!(s(1.0).to_u8(), 1);
    assert_eq!(s(1.999).to_u8(), 1);
    assert_eq!(s(2.0).to_u8(), 2);
    assert_eq!(s(127.5).to_u8(), 127);
    assert_eq!(s(254.99).to_u8(), 254);
    assert_eq!(s(255.0).to_u8(), 255);
    assert_eq!(s(255.99).to_u8(), 255);
    assert_eq!(s(256.0).to_u8(), 255);
    assert_eq!(s(1e30).to_u8(), 255);
    assert_eq!(s(f32::INFINITY).to_u8(), 255);
    assert_eq!(s(-3.0).to_u8(), 0);
    assert_eq!(s(f32::NEG_INFINITY).to_u8(), 0);
    assert_eq!(s(f32::NAN).to_u8(), 0);
}

#[test]
fn to_u8_is_monotone_on_samples() {
    let v = samples();
    for &a in &v {
        for &b in &v {
            if a <= b {
                assert!(s(a).to_u8() <= s(b).to_u8(), "{} {}", a, b);
            }
        }
    }
}

#[test]
fn to_u32_matches_saturating_cast() {
    for x in samples() {
        assert_eq!(s(x).to_u32(), x as u32, "{}", x);
    }
    let mut e = -10;
    while e < 40 {
        for m in [1.0f32, 1.25, 1.5, 1.9999999, 1.0000001] {
            let x = m * (2.0f32).powi(e);
            assert_eq!(s(x).to_u32(), x as u32, "{}", x);
            assert_eq!(s(-x).to_u32(), 0);
        }
        e += 1;
    }
}

#[test]
fn to_u32_exact_values() {
    assert_eq!(s(0.0).to_u32(), 0);
    assert_eq!(s(0.99).to_u32(), 0);
    assert_eq!(s(1.0).to_u32(), 1);
    assert_eq!(s(449.99997).to_u32(), 449);
    assert_eq!(s(450.0).to_u32(), 450);
    assert_eq!(s(800.0 / (16.0 / 9.0)).to_u32(), 450);
    assert_eq!(s(16777216.0).to_u32(), 16777216);
    assert_eq!(s(16777218.0).to_u32(), 16777218);
    assert_eq!(s(4294967040.0).to_u32(), 4294967040);
    assert_eq!(s(4294967296.0).to_u32(), u32::MAX);
    assert_eq!(s(1e30).to_u32(), u32::MAX);
    assert_eq!(s(f32::INFINITY).to_u32(), u32::MAX);
    assert_eq!(s(-1.0).to_u32(), 0);
    assert_eq!(s(f32::NAN).to_u32(), 0);
}
