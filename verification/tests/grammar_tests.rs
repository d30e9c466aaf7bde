use siffra::parse::{parse_line, ParsedExpr, ParsedLine, SiffraParser};
use siffra::span::Span;

#[test]
fn test_parse_expr() {
    let line = parse_line("log2(5(x)(y)) as mol %").unwrap();
    assert!(matches!(line, ParsedLine::Expression(_)));
}

#[test]
fn test_parse_line() {
    let line = parse_line("x = 5").unwrap();
    assert!(matches!(line, ParsedLine::Variable(_, _)));
    let line = parse_line("log2(5(x)(y)) as mol %").unwrap();
    assert!(matches!(line, ParsedLine::Expression(_)));
    let line = parse_line("// This is a comment").unwrap();
    assert!(matches!(line, ParsedLine::Comment));
    let line = parse_line("/* This is a comment */").unwrap();
    assert!(matches!(line, ParsedLine::Comment));
}

#[test]
fn test_ungrouped_functions() {
    let line = parse_line("log 5a").unwrap();
    assert!(matches!(line, ParsedLine::Expression(_)));
}

#[test]
fn test_nested_functions() {
    let line = SiffraParser::parse("sin(cos(5))").unwrap();
    let expr = match line {
        ParsedLine::Expression(e) => e,
        _ => panic!("expected an expression"),
    };
    assert_eq!(
        ParsedExpr::FunctionCall {
            name: "sin".to_string(),
            args: vec![ParsedExpr::FunctionCall {
                name: "cos".to_string(),
                args: vec![ParsedExpr::Number {
                    value: "5".to_string(),
                    units: None,
                    span: Span::new(8, 9),
                }],
                base: None,
                span: Span::new(4, 10),
                function_span: Span::new(4, 7),
            }],
            base: None,
            span: Span::new(0, 11),
            function_span: Span::new(0, 3),
        },
        expr
    );
}

#[test]
fn blank_and_malformed_lines() {
    assert!(matches!(parse_line("").unwrap(), ParsedLine::Comment));
    assert!(matches!(parse_line("   \t ").unwrap(), ParsedLine::Comment));
    // a malformed line reports the position where parsing stopped
    assert_eq!(parse_line("2 +").unwrap_err(), 3);
    assert_eq!(parse_line(")(").unwrap_err(), 0);
    assert_eq!(parse_line("2 3").unwrap_err(), 2);
    assert_eq!(parse_line("/* unclosed").unwrap_err(), 0);
    assert_eq!(parse_line("log(2").unwrap_err(), 5);
}
