use siffra::dimension::{Dimension, Quantity};
use siffra::float::Float;
use siffra::render::display_value;
use siffra::units::{LengthUnit, TimeUnit};
use siffra::value::Value;

fn km_squared(n: &str) -> Value {
    Value::new(
        Float::parse(n).unwrap(),
        Some(Dimension::new(vec![(
            Quantity::Length(LengthUnit::Kilometer),
            Float::parse("2.0").unwrap(),
        )])),
    )
}

#[test]
fn test_conversion() {
    let area = km_squared("2.0");
    let target = Dimension::new(vec![(
        Quantity::Length(LengthUnit::Meter),
        Float::parse("2.0").unwrap(),
    )]);
    let converted = area.convert(&target).unwrap();
    assert_eq!(
        converted.value().to_decimal_string(),
        Float::parse("2000000").unwrap().to_decimal_string()
    );
}

#[test]
fn dimension_sanity_check_returns_true_for_sane_dimension() {
    let dimension = Dimension::new(vec![
        (Quantity::Length(LengthUnit::Meter), Float::from_i64(2)),
        (Quantity::Time(TimeUnit::Second), Float::from_i64(1)),
    ]);
    assert!(dimension.sanity_check());
}

#[test]
fn dimension_sanity_check_returns_false_for_insane_dimension() {
    // Dimension::new folds equal quantities, so build the raw sequence here.
    let dim = Dimension::new(vec![(
        Quantity::Length(LengthUnit::Meter),
        Float::from_i64(2),
    )]);
    let mut insane = dim;
    insane.append_entries(&Dimension::new(vec![(
        Quantity::Length(LengthUnit::Kilometer),
        Float::from_i64(1),
    )]));
    assert!(!insane.sanity_check());
}

#[test]
fn value_try_add_returns_some_for_compatible_dimensions() {
    let meter = |n: &str| {
        Value::new(
            Float::parse(n).unwrap(),
            Some(Dimension::new(vec![(
                Quantity::Length(LengthUnit::Meter),
                Float::parse("1").unwrap(),
            )])),
        )
    };
    let result = meter("2").try_add(&meter("52"));
    assert!(result.is_some());
    assert!(result.unwrap().value().eq_value(&Float::parse("54").unwrap()));
}

#[test]
fn value_try_add_returns_none_for_incompatible_dimensions() {
    let value1 = Value::new(
        Float::parse("2").unwrap(),
        Some(Dimension::new(vec![(
            Quantity::Time(TimeUnit::Second),
            Float::parse("1").unwrap(),
        )])),
    );
    let value2 = Value::new(
        Float::parse("2").unwrap(),
        Some(Dimension::new(vec![(
            Quantity::Length(LengthUnit::Meter),
            Float::parse("1").unwrap(),
        )])),
    );
    assert!(value1.try_add(&value2).is_none());
}

#[test]
fn value_try_mul_returns_some() {
    let value1 = Value::new(
        Float::parse("2").unwrap(),
        Some(Dimension::new(vec![(
            Quantity::Length(LengthUnit::Meter),
            Float::parse("2").unwrap(),
        )])),
    );
    let value2 = Value::new(
        Float::parse("3").unwrap(),
        Some(Dimension::new(vec![(
            Quantity::Time(TimeUnit::Second),
            Float::parse("3").unwrap(),
        )])),
    );
    let result = value1.try_mul(&value2);
    assert!(result.is_some());
    assert!(result.unwrap().value().eq_value(&Float::parse("6").unwrap()));
}

#[test]
fn value_try_div_returns_some() {
    let result = km_squared("10").try_div(&km_squared("2"));
    assert!(result.is_some());
    assert!(result.unwrap().value().eq_value(&Float::parse("5").unwrap()));
}

#[test]
fn ratio_round_trip() {
    // Powers of two convert exactly, so the reciprocal relation is exact here.
    let km = Dimension::new(vec![(
        Quantity::Length(LengthUnit::Kilometer),
        Float::from_i64(1),
    )]);
    let m = Dimension::new(vec![(Quantity::Length(LengthUnit::Meter), Float::from_i64(1))]);
    let r = km.get_ratio(&m).unwrap();
    let back = m.get_ratio(&km).unwrap();
    let inverse = Float::from_i64(1).div(&r);
    assert!(back.eq_value(&inverse));
    // Within display precision the relation holds for every pair.
    let minutes = Dimension::new(vec![(
        Quantity::Time(TimeUnit::Minute),
        Float::from_i64(1),
    )]);
    let seconds = Dimension::new(vec![(
        Quantity::Time(TimeUnit::Second),
        Float::from_i64(1),
    )]);
    let r2 = minutes.get_ratio(&seconds).unwrap();
    let back2 = seconds.get_ratio(&minutes).unwrap();
    let inverse2 = Float::from_i64(1).div(&r2);
    assert_eq!(back2.to_decimal_string(), inverse2.to_decimal_string());
}

#[test]
fn convert_inverse_round_trip() {
    let km = Dimension::new(vec![(
        Quantity::Length(LengthUnit::Kilometer),
        Float::from_i64(1),
    )]);
    let m = Dimension::new(vec![(Quantity::Length(LengthUnit::Meter), Float::from_i64(1))]);
    let v = Value::new(Float::parse("2").unwrap(), Some(km.clone()));
    let there = v.convert(&m).unwrap();
    assert_eq!(display_value(there.clone()), "2000 m");
    let back = there.convert(&km).unwrap();
    assert_eq!(display_value(back), "2 km");
}

#[test]
fn unit_algebra_identities() {
    let km = Dimension::new(vec![(
        Quantity::Length(LengthUnit::Kilometer),
        Float::from_i64(1),
    )]);
    let m = Dimension::new(vec![(Quantity::Length(LengthUnit::Meter), Float::from_i64(1))]);
    let v = Value::new(Float::parse("2").unwrap(), Some(km));
    let w = Value::new(Float::parse("3").unwrap(), None);
    let lhs = v.try_mul(&w).unwrap().convert(&m).unwrap();
    let rhs = v.convert(&m).unwrap().try_mul(&w).unwrap();
    assert!(lhs.value().eq_value(&rhs.value()));
    assert!(lhs.dimension().eq_dimension(&rhs.dimension()));

    let one = Value::new(Float::from_i64(1), None);
    let same = v.try_mul(&one).unwrap();
    assert!(same.value().eq_value(&v.value()));
    assert!(same.dimension().eq_dimension(&v.dimension()));
}

#[test]
fn simplify_is_idempotent_on_values() {
    let mut v = km_squared("4");
    v.simplify();
    let once = v.dimension();
    v.simplify();
    assert!(v.dimension().eq_dimension(&once));
}
