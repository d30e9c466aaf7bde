use siffra::float::Float;

#[test]
fn test_parse() {
    assert!(Float::parse("1.00").unwrap().eq_value(&Float::from_i64(1)));
    assert!(Float::parse("1.0E1").unwrap().eq_value(&Float::from_i64(10)));
    let eps = Float::parse("0.0000000001").unwrap();
    let tenth = Float::parse("0.1").unwrap();
    assert!(Float::parse("1.0E-1").unwrap().sub(&tenth).abs().lt_value(&eps));
    assert!(
        Float::parse("15.03E+3").unwrap().sub(&Float::from_i64(15030)).abs().lt_value(&eps)
    );
}

#[test]
fn test_string() {
    assert_eq!(Float::parse("-10.123").unwrap().to_decimal_string(), "-10.123");
    assert_eq!(Float::parse("001.00").unwrap().to_decimal_string(), "1");
    assert_eq!(Float::parse("5e-20").unwrap().to_decimal_string(), "5E-20");
    assert_eq!(Float::parse("5E-20").unwrap().to_decimal_string(), "5E-20");
    assert_eq!(Float::parse("999").unwrap().to_decimal_string(), "999");
    assert_eq!(
        Float::parse(".01123410918273418734182374").unwrap().to_decimal_string(),
        "0.01123410918273418734182374"
    );
    assert_eq!(
        Float::parse("0.01123410918273418734182374").unwrap().to_decimal_string(),
        "0.01123410918273418734182374"
    );
    assert_eq!(Float::parse("0").unwrap().to_decimal_string(), "0.0");
    assert_eq!(Float::from_i64(0).to_decimal_string(), "0.0");
    assert_eq!(Float::from_i64(-1).to_decimal_string(), "-1");
    assert_eq!(Float::parse("Inf").unwrap().to_decimal_string(), "Inf");
    assert_eq!(Float::parse("-Inf").unwrap().to_decimal_string(), "-Inf");
    let inf = Float::parse("Inf").unwrap();
    assert_eq!(inf.sub(&inf).to_decimal_string(), "NaN");
}

#[test]
fn float_mul_display() {
    let a = Float::parse("2.5").unwrap();
    let b = Float::parse("4").unwrap();
    assert_eq!(a.mul(&b).to_decimal_string(), "10");
}

#[test]
fn float_pow_display() {
    let b = Float::parse("4").unwrap();
    assert_eq!(b.pow(&Float::from_i64(3)).to_decimal_string(), "64");
}

#[test]
fn float_transcendentals() {
    let zero = Float::from_i64(0);
    let one = Float::from_i64(1);
    assert!(zero.exp().eq_value(&one));
    assert!(Float::from_i64(9).sqrt().eq_value(&Float::from_i64(3)));
    assert!(zero.sin().eq_value(&zero));
    assert!(one.cos().gt_value(&zero));
    assert!(zero.tan().eq_value(&zero));
    assert!(zero.asin().eq_value(&zero));
    assert!(one.acos().eq_value(&zero));
    assert!(zero.atan().eq_value(&zero));
    assert!(Float::from_i64(2).recip().eq_value(&one.div(&Float::from_i64(2))));
    assert!(Float::from_i64(10).ln().gt_value(&Float::from_i64(2)));
    assert!(Float::from_i64(1000).log10().eq_value(&Float::from_i64(3)));
    assert!(Float::pi().gt_value(&Float::from_i64(3)));
    assert!(Float::e().gt_value(&Float::from_i64(2)));
}

#[test]
fn float_sign_operations() {
    let a = Float::parse("2.5").unwrap();
    assert!(a.sub(&a).is_zero());
    assert!(a.neg().is_negative());
    assert!(a.neg().abs().eq_value(&a));
}
