use subwoofer::scalar::{Scalar, INFINITY_BITS, ONE_BITS, SIGN_BIT};

fn sc(x: f64) -> Scalar {
    Scalar::from_bits(x.to_bits())
}

fn samples() -> Vec<f64> {
    vec![
        0.0,
        -0.0,
        f64::MIN_POSITIVE,
        -f64::MIN_POSITIVE,
        5e-324,
        -5e-324,
        0.005,
        0.5,
        -0.5,
        0.6,
        1.0,
        -1.0,
        1.0000000000000002,
        5.0,
        10.0,
        -10.0,
        1000.0,
        f64::MAX,
        f64::MIN,
        f64::INFINITY,
        f64::NEG_INFINITY,
        f64::NAN,
        -f64::NAN,
    ]
}

#[test]
fn bits_round_trip() {
    for x in samples() {
        assert_eq!(sc(x).to_bits(), x.to_bits());
    }
    assert_eq!(Scalar::from_bits(0x4024_0000_0000_0000).to_bits(), 10.0f64.to_bits());
}

#[test]
fn constants_are_the_patterns_they_name() {
    assert_eq!(ONE_BITS, 1.0f64.to_bits());
    assert_eq!(INFINITY_BITS, f64::INFINITY.to_bits());
    assert_eq!(SIGN_BIT, (-0.0f64).to_bits());
    assert_eq!(Scalar::zero().to_bits(), 0.0f64.to_bits());
    assert_eq!(Scalar::one().to_bits(), 1.0f64.to_bits());
}

#[test]
fn less_than_agrees_with_the_numbers() {
    for a in samples() {
        for b in samples() {
            assert_eq!(sc(a).less_than(sc(b)), a < b, "{} < {}", a, b);
        }
    }
}

#[test]
fn less_than_exact_cases() {
    assert!(sc(0.5).less_than(sc(0.6)));
    assert!(!sc(0.6).less_than(sc(0.5)));
    assert!(!sc(0.5).less_than(sc(0.5)));
    assert!(sc(-1.0).less_than(sc(0.0)));
    assert!(!sc(-0.0).less_than(sc(0.0)));
    assert!(!sc(0.0).less_than(sc(-0.0)));
    assert!(!sc(f64::NAN).less_than(sc(1.0)));
    assert!(!sc(1.0).less_than(sc(f64::NAN)));
}

#[test]
fn absolute_agrees_with_the_numbers() {
    for a in samples() {
        assert_eq!(sc(a).absolute().to_bits(), a.abs().to_bits(), "|{}|", a);
    }
    assert_eq!(sc(-0.5).absolute(), sc(0.5));
}

#[test]
fn nan_is_recognised() {
    for a in samples() {
        assert_eq!(sc(a).is_not_a_number(), a.is_nan(), "{}", a);
    }
}

#[test]
fn at_least_zero_agrees_with_the_numbers() {
    for a in samples() {
        assert_eq!(sc(a).at_least_zero(), a >= 0.0, "{}", a);
    }
}

#[test]
fn is_unit_agrees_with_the_numbers() {
    for a in samples() {
        assert_eq!(sc(a).is_unit(), (0.0..=1.0).contains(&a), "{}", a);
    }
    assert!(sc(1.0).is_unit());
    assert!(!sc(1.0000000000000002).is_unit());
}

/// A fixed stream of bit patterns: a linear congruential generator, with
/// the exponent now and then forced to an edge.
fn patterns(count: usize) -> Vec<u64> {
    let mut state: u64 = 0x9E37_79B9_7F4A_7C15;
    let mut out = Vec::with_capacity(count);
    for i in 0..count {
        state = state.wrapping_mul(6364136223846793005).wrapping_add(1442695040888963407);
        let mut bits = state ^ (state >> 29);
        match i % 5 {
            1 => bits &= 0x800F_FFFF_FFFF_FFFF,
            2 => bits |= 0x7FF0_0000_0000_0000,
            3 => bits = (bits & 0x800F_FFFF_FFFF_FFFF) | 0x3FF0_0000_0000_0000,
            _ => {}
        }
        out.push(bits);
    }
    out
}

#[test]
fn order_agrees_with_the_numbers_on_many_patterns() {
    let all = patterns(100_000);
    for pair in all.windows(2) {
        let (a, b) = (f64::from_bits(pair[0]), f64::from_bits(pair[1]));
        assert_eq!(sc(a).less_than(sc(b)), a < b, "{:#x} < {:#x}", pair[0], pair[1]);
        assert_eq!(sc(a).less_than(sc(a)), false);
    }
}

#[test]
fn predicates_agree_with_the_numbers_on_many_patterns() {
    for bits in patterns(100_000) {
        let x = f64::from_bits(bits);
        let s = Scalar::from_bits(bits);
        assert_eq!(s.absolute().to_bits(), x.abs().to_bits(), "{:#x}", bits);
        assert_eq!(s.is_not_a_number(), x.is_nan(), "{:#x}", bits);
        assert_eq!(s.at_least_zero(), x >= 0.0, "{:#x}", bits);
        assert_eq!(s.is_unit(), x >= 0.0 && x <= 1.0, "{:#x}", bits);
    }
}
