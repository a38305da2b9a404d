use json_filter::double::{INFINITY_BITS, SIGN_BIT};
use json_filter::Double;

fn d(x: f64) -> Double {
    Double::from_bits(x.to_bits())
}

fn samples() -> Vec<f64> {
    let mut v = vec![
        0.0,
        -0.0,
        1.0,
        -1.0,
        0.5,
        -0.5,
        20.0,
        25.0,
        30.0,
        1e-300,
        -1e-300,
        1e300,
        -1e300,
        f64::MIN_POSITIVE,
        -f64::MIN_POSITIVE,
        f64::MAX,
        f64::MIN,
        f64::EPSILON,
        f64::INFINITY,
        f64::NEG_INFINITY,
        f64::NAN,
        -f64::NAN,
        f64::from_bits(1),
        f64::from_bits(SIGN_BIT | 1),
        f64::from_bits(0x000f_ffff_ffff_ffff),
        f64::from_bits(0x0010_0000_0000_0000),
        f64::from_bits(INFINITY_BITS + 1),
        f64::from_bits(0x7fff_ffff_ffff_ffff),
        f64::from_bits(0xffff_ffff_ffff_ffff),
        f64::from_bits(INFINITY_BITS - 1),
        9007199254740992.0,
        9007199254740994.0,
        18446744073709551615u64 as f64,
        i64::MIN as f64,
        std::f64::consts::PI,
        -std::f64::consts::E,
    ];
    let mut x = 1.0f64;
    for _ in 0..40 {
        x = x * -3.7 + 0.1;
        v.push(x);
    }
    v
}

#[test]
fn comparisons_agree_with_the_hardware() {
    let all = samples();
    for &a in &all {
        for &b in &all {
            assert_eq!(d(a).gt(&d(b)), a > b, "{:?} > {:?}", a, b);
            assert_eq!(d(a).lt(&d(b)), a < b, "{:?} < {:?}", a, b);
            assert_eq!(d(a).ge(&d(b)), a >= b, "{:?} >= {:?}", a, b);
            assert_eq!(d(a).le(&d(b)), a <= b, "{:?} <= {:?}", a, b);
            assert_eq!(d(a).equals(&d(b)), a == b, "{:?} == {:?}", a, b);
            assert_eq!(d(a) == d(b), a == b, "{:?} == {:?}", a, b);
        }
    }
}

#[test]
fn nan_is_recognised() {
    for x in samples() {
        assert_eq!(d(x).nan(), x.is_nan(), "{:?}", x);
    }
}

#[test]
fn bits_round_trip() {
    for x in samples() {
        assert_eq!(d(x).to_bits(), x.to_bits());
        assert_eq!(Double::from_bits(x.to_bits()).bits, x.to_bits());
    }
    assert_eq!(SIGN_BIT, (-0.0f64).to_bits());
    assert_eq!(INFINITY_BITS, f64::INFINITY.to_bits());
}

#[test]
fn the_two_zeros_are_equal_and_nan_equals_nothing() {
    assert!(d(0.0).equals(&d(-0.0)));
    assert!(d(-0.0).le(&d(0.0)));
    assert!(d(-0.0).ge(&d(0.0)));
    assert!(!d(-0.0).lt(&d(0.0)));
    assert!(!d(f64::NAN).equals(&d(f64::NAN)));
    assert!(!d(f64::NAN).le(&d(f64::NAN)));
    assert!(!d(f64::NAN).ge(&d(1.0)));
    assert!(!d(1.0).gt(&d(f64::NAN)));
}

#[test]
fn exactly_one_of_less_equal_greater_for_numbers() {
    let all = samples();
    for &a in &all {
        for &b in &all {
            let n = [d(a).lt(&d(b)), d(a).equals(&d(b)), d(a).gt(&d(b))]
                .iter()
                .filter(|&&x| x)
                .count();
            if a.is_nan() || b.is_nan() {
                assert_eq!(n, 0);
            } else {
                assert_eq!(n, 1);
            }
            assert_eq!(d(a).ge(&d(b)), d(a).gt(&d(b)) || d(a).equals(&d(b)));
            assert_eq!(d(a).le(&d(b)), d(a).lt(&d(b)) || d(a).equals(&d(b)));
        }
    }
}
