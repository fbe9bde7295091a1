use gnss_rtk::scalar::Scalar;

fn sc(x: f64) -> Scalar {
    Scalar::from_bits(x.to_bits())
}

fn samples() -> Vec<f64> {
    vec![
        f64::NEG_INFINITY,
        f64::MIN,
        -6_378_137.0,
        -360.0,
        -1.5,
        -1.0,
        -f64::MIN_POSITIVE,
        -5e-324,
        -0.0,
        0.0,
        5e-324,
        f64::MIN_POSITIVE,
        0.75,
        1.0,
        1.0 + f64::EPSILON,
        15.0,
        30.0,
        360.0,
        20_200_000.0,
        f64::MAX,
        f64::INFINITY,
        f64::NAN,
        -f64::NAN,
    ]
}

#[test]
fn order_is_the_order_of_the_numbers() {
    for a in samples() {
        for b in samples() {
            let (x, y) = (sc(a), sc(b));
            assert_eq!(x.lt(&y), a < b, "{} < {}", a, b);
            assert_eq!(x.le(&y), a <= b, "{} <= {}", a, b);
            assert_eq!(x.gt(&y), a > b, "{} > {}", a, b);
            assert_eq!(x.ge(&y), a >= b, "{} >= {}", a, b);
            assert_eq!(x.eq_value(&y), a == b, "{} == {}", a, b);
        }
    }
}

#[test]
fn not_a_number_and_zero_are_told() {
    for a in samples() {
        assert_eq!(sc(a).is_nan(), a.is_nan());
        assert_eq!(sc(a).is_zero(), a == 0.0);
    }
    assert_eq!(Scalar::zero().to_bits(), 0);
    assert_eq!(f64::from_bits(Scalar::zero().to_bits()), 0.0);
}

#[test]
fn absolute_value_clears_the_sign() {
    for a in samples() {
        let r = f64::from_bits(sc(a).abs().to_bits());
        if a.is_nan() {
            assert!(r.is_nan());
        } else {
            assert_eq!(r, a.abs());
            assert!(!r.is_sign_negative());
        }
    }
}

#[test]
fn position_goes_up_with_the_number() {
    let finite: Vec<f64> = samples().into_iter().filter(|x| !x.is_nan()).collect();
    for pair in finite.windows(2) {
        let (a, b) = (sc(pair[0]).position(), sc(pair[1]).position());
        if pair[0] == pair[1] {
            assert_eq!(a, b);
        } else {
            assert!(a < b);
        }
    }
    assert_eq!(sc(0.0).position(), 0);
    assert_eq!(sc(-0.0).position(), 0);
    assert_eq!(sc(5e-324).position(), 1);
    assert_eq!(sc(-5e-324).position(), -1);
}

#[test]
fn integers_are_encoded_exactly() {
    let limit: i64 = 1 << 53;
    for n in [
        0i64,
        1,
        -1,
        2,
        3,
        10,
        15,
        30,
        360,
        -360,
        1_575_420_000,
        -1_227_600_000,
        i32::MAX as i64,
        i32::MIN as i64,
        (1 << 52) - 1,
        1 << 52,
        (1 << 52) + 1,
        limit - 1,
        -(limit - 1),
    ] {
        let s = Scalar::from_i64(n).unwrap();
        assert_eq!(f64::from_bits(s.to_bits()), n as f64, "{}", n);
        assert_eq!(s.to_bits(), (n as f64).to_bits());
    }
    assert_eq!(Scalar::from_i64(limit), None);
    assert_eq!(Scalar::from_i64(-limit), None);
    assert_eq!(Scalar::from_i64(i64::MAX), None);
    assert_eq!(Scalar::from_i64(i64::MIN), None);
    for n in [0i32, 1, -1, 7, -9, i32::MAX, i32::MIN, 120_000] {
        assert_eq!(Scalar::from_i32(n).to_bits(), (n as f64).to_bits());
    }
}

#[test]
fn constants_of_the_library() {
    assert_eq!(10.0f64.to_bits(), 0x4024_0000_0000_0000);
    assert_eq!(15.0f64.to_bits(), 0x402E_0000_0000_0000);
    assert_eq!(30.0f64.to_bits(), 0x403E_0000_0000_0000);
    assert_eq!(360.0f64.to_bits(), 0x4076_8000_0000_0000);
    assert_eq!(0.75f64.to_bits(), 0x3FE8_0000_0000_0000);
    assert_eq!(Scalar::from_i32(15).to_bits(), 0x402E_0000_0000_0000);
    assert_eq!(Scalar::from_i32(360).to_bits(), 0x4076_8000_0000_0000);
}
