use rustytracer::scalar::Scalar;

fn scalar(v: f64) -> Scalar {
    Scalar::from_bits(v.to_bits())
}

fn value(s: Scalar) -> f64 {
    f64::from_bits(s.to_bits())
}

fn samples() -> Vec<f64> {
    vec![
        f64::NEG_INFINITY,
        f64::MIN,
        -200.0,
        -1.0,
        -0.1,
        -f64::MIN_POSITIVE,
        -5e-324,
        -0.0,
        0.0,
        5e-324,
        f64::MIN_POSITIVE,
        0.00001,
        0.1,
        0.9,
        1.0,
        1.0 + f64::EPSILON,
        2.0,
        200.0,
        f64::MAX,
        f64::INFINITY,
        f64::NAN,
        -f64::NAN,
    ]
}

#[test]
fn bits_round_trip() {
    for v in samples() {
        assert_eq!(scalar(v).to_bits(), v.to_bits());
        assert_eq!(value(scalar(v)).to_bits(), v.to_bits());
    }
}

#[test]
fn constants_are_zero_and_one() {
    assert_eq!(value(Scalar::zero()), 0.0);
    assert!(value(Scalar::zero()).is_sign_positive());
    assert_eq!(value(Scalar::one()), 1.0);
}

#[test]
fn nan_is_recognized() {
    for v in samples() {
        assert_eq!(scalar(v).is_nan(), v.is_nan(), "{}", v);
    }
}

#[test]
fn comparisons_agree_with_the_numbers() {
    for a in samples() {
        for b in samples() {
            assert_eq!(scalar(a).lt(scalar(b)), a < b, "{} < {}", a, b);
            assert_eq!(scalar(a).le(scalar(b)), a <= b, "{} <= {}", a, b);
            assert_eq!(scalar(a).equals(scalar(b)), a == b, "{} == {}", a, b);
        }
    }
}

#[test]
fn both_zeros_are_the_same_number() {
    assert!(scalar(-0.0).equals(scalar(0.0)));
    assert!(scalar(0.0).le(scalar(-0.0)));
    assert!(!scalar(-0.0).lt(scalar(0.0)));
    assert_eq!(scalar(-0.0).key(), 0);
    assert_eq!(scalar(0.0).key(), 0);
}

#[test]
fn key_grows_with_the_number() {
    let numbers: Vec<f64> = samples().into_iter().filter(|v| !v.is_nan()).collect();
    for a in &numbers {
        for b in &numbers {
            assert_eq!(scalar(*a).key() < scalar(*b).key(), a < b, "{} {}", a, b);
        }
    }
    assert_eq!(scalar(1.0).key(), 0x3FF0_0000_0000_0000);
    assert_eq!(scalar(-1.0).key(), -0x3FF0_0000_0000_0000);
}

#[test]
fn negation_flips_the_sign() {
    for v in samples() {
        assert_eq!(scalar(v).neg().to_bits(), (-v).to_bits(), "{}", v);
        assert_eq!(scalar(v).neg().neg().to_bits(), v.to_bits());
    }
    assert_eq!(value(scalar(3.5).neg()), -3.5);
    assert!(value(scalar(0.0).neg()).is_sign_negative());
}
