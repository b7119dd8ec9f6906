use eqvis::bits::{abs, clamp, is_nan, less, max_of, min_of, ONE, ZERO};

fn samples() -> Vec<f32> {
    vec![
        0.0,
        -0.0,
        1.0,
        -1.0,
        0.5,
        -0.5,
        3.5,
        1e-45,
        -1e-45,
        1e-40,
        1.1754944e-38,
        1e-6,
        1e-9,
        20.0,
        20_000.0,
        -60.0,
        60.0,
        f32::MAX,
        f32::MIN,
        f32::INFINITY,
        f32::NEG_INFINITY,
        f32::NAN,
        0.333_333_34,
    ]
}

#[test]
fn less_agrees_with_the_machine() {
    for a in samples() {
        for b in samples() {
            assert_eq!(less(a.to_bits(), b.to_bits()), a < b, "{a} {b}");
        }
    }
}

#[test]
fn max_and_min_agree_with_the_machine() {
    for a in samples() {
        for b in samples() {
            let hi = f32::from_bits(max_of(a.to_bits(), b.to_bits()));
            let lo = f32::from_bits(min_of(a.to_bits(), b.to_bits()));
            if a.is_nan() && b.is_nan() {
                assert!(hi.is_nan() && lo.is_nan());
            } else {
                assert_eq!(hi, a.max(b), "{a} {b}");
                assert_eq!(lo, a.min(b), "{a} {b}");
            }
        }
    }
}

#[test]
fn clamp_agrees_with_the_machine() {
    for v in samples() {
        for (lo, hi) in [(-60.0f32, 0.0f32), (0.05, 1.0), (-15.0, 15.0), (2.0, 2.0)] {
            let got = clamp(v.to_bits(), lo.to_bits(), hi.to_bits());
            assert_eq!(got, v.clamp(lo, hi).to_bits(), "{v} {lo} {hi}");
        }
    }
}

#[test]
fn absolute_value_drops_the_sign() {
    for v in samples() {
        assert_eq!(abs(v.to_bits()), v.abs().to_bits());
    }
}

#[test]
fn nan_is_recognised() {
    for v in samples() {
        assert_eq!(is_nan(v.to_bits()), v.is_nan());
    }
    assert!(is_nan(0xffff_ffff));
    assert!(!is_nan(0x7f80_0000));
}

#[test]
fn named_patterns_stand_for_their_numbers() {
    assert_eq!(f32::from_bits(ZERO), 0.0);
    assert_eq!(f32::from_bits(ONE), 1.0);
}
