use siffra::chem::{Compound, Element};

#[test]
fn parse_compound_returns_correct_compound_for_valid_formula() {
    let formula = "H2O".to_string();
    let compound = Compound::parse(&formula).unwrap();
    let mut expected = Compound::empty();
    expected.insert_element(Element::from_symbol("H").unwrap(), 2);
    expected.insert_element(Element::from_symbol("O").unwrap(), 1);
    assert!(compound.eq_compound(&expected));
}

#[test]
fn parse_compound_returns_correct_compound_for_formula_with_parentheses() {
    let formula = "Ca(OH2)2".to_string();
    let compound = Compound::parse(&formula).unwrap();
    let mut expected = Compound::empty();
    expected.insert_element(Element::from_symbol("Ca").unwrap(), 1);
    expected.insert_element(Element::from_symbol("O").unwrap(), 2);
    expected.insert_element(Element::from_symbol("H").unwrap(), 4);
    assert!(compound.eq_compound(&expected));
}

#[test]
fn parse_compound_returns_none_for_invalid_formula() {
    let formula = "H2O)2".to_string();
    let compound = Compound::parse(&formula);
    assert!(compound.is_none());
}

#[test]
fn compound_order_insensitivity() {
    let a = Compound::parse("H2O").unwrap();
    let b = Compound::parse("OH2").unwrap();
    let c = Compound::parse("HOH").unwrap();
    assert!(a.eq_compound(&b));
    assert!(b.eq_compound(&c));
    assert!(a.eq_compound(&c));
}

#[test]
fn element_lookup() {
    let h = Element::from_symbol("H").unwrap();
    assert_eq!(h.atomic_number(), 1);
    assert_eq!(h.symbol(), "H");
    let fe = Element::from_atomic_number(26).unwrap();
    assert_eq!(fe.symbol(), "Fe");
    assert!(Element::from_symbol("Zz").is_none());
    assert!(Element::from_atomic_number(0).is_none());
    assert!(Element::from_atomic_number(119).is_none());
    let ac = Element::from_symbol("Ac").unwrap();
    assert_eq!(ac.atomic_number(), 89);
}

#[test]
fn lookups_below_the_table_range_find_nothing() {
    // The table's binary search runs out of bounds for text below its first
    // entry, so such text must be refused without searching.
    assert!(Element::from_symbol("").is_none());
    assert!(Element::from_symbol("A").is_none());
    assert!(Element::from_symbol("Ab").is_none());
    assert!(Element::from_symbol("AC").is_none());
    assert!(Element::from_symbol("a").is_none());
    assert!(Element::from_symbol("2").is_none());
    assert!(Compound::parse("Ab").is_none());
    assert!(Compound::parse("2").is_none());
    assert!(Compound::parse("AbH2").is_none());
}

#[test]
fn water_particulate_mass_is_about_eighteen() {
    let water = Compound::parse("H2O").unwrap();
    let mass = water.particulate_mass();
    let lo = siffra::float::Float::parse("18.0").unwrap();
    let hi = siffra::float::Float::parse("18.1").unwrap();
    assert!(lo.lt_value(&mass));
    assert!(mass.lt_value(&hi));
}

#[test]
fn compound_formula_string() {
    let caoh2 = Compound::parse("Ca(OH)2").unwrap();
    // insertion-sorted by atomic number: H, O, Ca
    assert_eq!(caoh2.formula_string(), "H2O2Ca");
}
