use siffra::error::SiffraExecutionError;
use siffra::evaluation::{evaluate_line, SiffraState};
use siffra::render::display_value;
use siffra::span::Span;

fn eval_ok(state: &mut SiffraState, line: &str) -> String {
    let v = evaluate_line(line, state).unwrap().unwrap();
    display_value(v)
}

fn eval_err(state: &mut SiffraState, line: &str) -> String {
    evaluate_line(line, state).unwrap_err().message()
}

#[test]
fn addition_with_unit_conversion() {
    let mut state = SiffraState::new();
    assert_eq!(eval_ok(&mut state, "2 km + 300 m"), "2.3 km");
}

#[test]
fn multiplication_reconciles_units() {
    let mut state = SiffraState::new();
    assert_eq!(eval_ok(&mut state, "5 m * 2 m"), "10 m^2");
}

#[test]
fn grouped_exponentiation() {
    let mut state = SiffraState::new();
    assert_eq!(eval_ok(&mut state, "(1 + 1) ^ 10"), "1024");
}

#[test]
fn variables_bind_and_evaluate() {
    let mut state = SiffraState::new();
    assert_eq!(eval_ok(&mut state, "x = 3"), "3");
    assert_eq!(eval_ok(&mut state, "x^2 + 1"), "10");
}

#[test]
fn log_with_explicit_base() {
    let mut state = SiffraState::new();
    assert_eq!(eval_ok(&mut state, "log(2, 8)"), "3");
}

#[test]
fn grams_of_water_to_moles() {
    let mut state = SiffraState::new();
    let shown = eval_ok(&mut state, "18 g{H2O} as mol");
    assert!(shown.starts_with("0.99"), "got {shown}");
    assert!(shown.ends_with(" mol"), "got {shown}");
}

#[test]
fn degrees_to_radians() {
    let mut state = SiffraState::new();
    let shown = eval_ok(&mut state, "90 deg as rad");
    assert!(shown.starts_with("1.5707963"), "got {shown}");
}

#[test]
fn comments_and_blank_lines_yield_nothing() {
    let mut state = SiffraState::new();
    assert!(evaluate_line("// comment", &mut state).unwrap().is_none());
    assert!(evaluate_line("/* comment */", &mut state).unwrap().is_none());
    assert!(evaluate_line("", &mut state).unwrap().is_none());
    assert!(evaluate_line("   ", &mut state).unwrap().is_none());
}

#[test]
fn division_error_poisons_variable() {
    let mut state = SiffraState::new();
    assert_eq!(eval_err(&mut state, "y = 1/0"), "Division Error");
    let err = evaluate_line("y + 1", &mut state).unwrap_err();
    assert_eq!(err.message(), "Variable Error");
    assert_eq!(err.span(), Some((0, 1)));
}

#[test]
fn zero_to_the_zero_is_one() {
    let mut state = SiffraState::new();
    assert_eq!(eval_ok(&mut state, "0 ^ 0"), "1");
}

#[test]
fn zero_to_a_negative_power_is_an_error() {
    let mut state = SiffraState::new();
    assert_eq!(eval_err(&mut state, "0 ^ -1"), "Root Error");
}

#[test]
fn division_by_zero_is_an_error() {
    let mut state = SiffraState::new();
    assert_eq!(eval_err(&mut state, "5 / 0"), "Division Error");
}

#[test]
fn negative_square_root_is_an_error() {
    let mut state = SiffraState::new();
    assert_eq!(eval_err(&mut state, "(-1) ^ 0.5"), "Root Error");
    assert_eq!(eval_err(&mut state, "sqrt(0 - 1)"), "Root Error");
}

#[test]
fn replaying_lines_is_deterministic() {
    let lines = ["a = 2 km", "a + 300 m", "b = a * a", "b as m^2", "sin(0)"];
    let mut first: Vec<String> = Vec::new();
    let mut second: Vec<String> = Vec::new();
    for outputs in [&mut first, &mut second] {
        let mut state = SiffraState::new();
        for line in lines.iter() {
            let shown = match evaluate_line(line, &mut state) {
                Ok(Some(v)) => display_value(v),
                Ok(None) => String::new(),
                Err(e) => e.message(),
            };
            outputs.push(shown);
        }
    }
    assert_eq!(first, second);
}

#[test]
fn error_kinds() {
    let mut state = SiffraState::new();
    assert_eq!(eval_err(&mut state, "1 m + 1 s"), "Unit Error");
    assert_eq!(eval_err(&mut state, "1 m as s"), "Unit Error");
    assert_eq!(eval_err(&mut state, "qq + 1"), "Name Error");
    assert_eq!(eval_err(&mut state, "log(1, 2, 3)"), "Argument Error");
    assert_eq!(eval_err(&mut state, "blah(3)"), "Function not defined");
    assert_eq!(eval_err(&mut state, "3!"), "Not Yet Implemented Error");
    assert_eq!(eval_err(&mut state, "2 +"), "Syntax Error");
    assert_eq!(eval_err(&mut state, "1 qz"), "Unit Error");
    assert_eq!(eval_err(&mut state, "1 g{Zz} as mol"), "Chemical Error");
    assert_eq!(eval_err(&mut state, "1 g{Ab} as mol"), "Chemical Error");
}

#[test]
fn builtin_constants_and_functions() {
    let mut state = SiffraState::new();
    assert!(eval_ok(&mut state, "pi").starts_with("3.14159265"));
    assert!(eval_ok(&mut state, "e").starts_with("2.71828182"));
    assert_eq!(eval_ok(&mut state, "sin(0)"), "0.0");
    assert_eq!(eval_ok(&mut state, "ln(1)"), "0.0");
    assert_eq!(eval_ok(&mut state, "log(100)"), "2");
    assert_eq!(eval_ok(&mut state, "sqrt(16)"), "4");
    assert_eq!(eval_ok(&mut state, "10 %"), "0.1");
    assert_eq!(eval_ok(&mut state, "-2 ^ 2"), "-4");
    assert_eq!(eval_ok(&mut state, "2 ^ 3 ^ 2"), "512");
    assert_eq!(eval_ok(&mut state, "log2(8)"), "3");
    assert_eq!(eval_ok(&mut state, "5(2)(3)"), "30");
}

#[test]
fn unit_denominators_and_powers() {
    let mut state = SiffraState::new();
    assert_eq!(eval_ok(&mut state, "6 m/s * 2 s"), "12 m");
    assert_eq!(eval_ok(&mut state, "4 m^2 / 2 m"), "2 m");
    assert_eq!(eval_ok(&mut state, "3 1/s * 2 s"), "6");
}

#[test]
fn block_total_accumulates() {
    let mut state = SiffraState::new();
    let v = evaluate_line("2 km", &mut state).unwrap().unwrap();
    state.add_to_block_total(&v);
    let w = evaluate_line("300 m", &mut state).unwrap().unwrap();
    state.add_to_block_total(&w);
    let total = state.block_total().unwrap();
    assert_eq!(display_value(total), "2300 m");
    state.clear_block_total();
    assert_eq!(display_value(state.block_total().unwrap()), "0.0");
    state.set_previous_value(v);
    assert_eq!(display_value(state.previous_value().unwrap()), "2 km");
    state.clear_previous_value();
    assert!(state.previous_value().is_none());
}

#[test]
fn compound_tags_follow_values() {
    let mut state = SiffraState::new();
    assert_eq!(eval_ok(&mut state, "2 g{H2O} + 1 g{H2O}"), "3 g H2O");
    assert_eq!(eval_err(&mut state, "1 g{H2O} as mol{CO2}"), "Unit Error");
    // the molar bridge needs both exponents equal to one
    assert_eq!(eval_err(&mut state, "1 g{H2O} as mol{H2O}^2"), "Unit Error");
    assert_eq!(eval_err(&mut state, "1 mol{H2O}^2 as g{H2O}"), "Unit Error");
}

#[test]
fn errors_carry_descriptions_and_spans() {
    let mut state = SiffraState::new();
    let err = evaluate_line("1 m as s", &mut state).unwrap_err();
    assert_eq!(err.message(), "Unit Error");
    assert_eq!(err.description().unwrap(), "Error converting units");
    let err = evaluate_line("2 +", &mut state).unwrap_err();
    assert_eq!(err.description().unwrap(), "Could not parse the provided line");
    assert_eq!(err.span(), Some((3, 4)));
}

#[test]
fn error_carries_location_text() {
    let err = SiffraExecutionError::new("Unit Error".to_string())
        .with_description("d".to_string())
        .with_span(3, 7)
        .with_location("core".to_string(), 12);
    assert_eq!(err.message(), "Unit Error");
    assert_eq!(err.description().unwrap(), "d");
    assert_eq!(err.span(), Some((3, 7)));
    assert_eq!(err.location().unwrap(), "core:12");
}

#[test]
fn span_merge_covers_both() {
    let a = Span::new(2, 5);
    let b = Span::new(4, 9);
    let m = a.merge(b);
    assert_eq!(m.start(), 2);
    assert_eq!(m.end(), 9);
}
