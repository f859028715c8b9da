use compare_variables::Ace;
use compare_variables::ComparisonOperator;
use compare_variables::DisplayPath;
use compare_variables::OperandSyntax;
use compare_variables::ParseError;
use compare_variables::parse_expression;

fn literal_text(operand: &OperandSyntax) -> &str {
    match operand {
        OperandSyntax::Literal { text } => text,
        OperandSyntax::PathRef { .. } => panic!("expected a literal operand"),
    }
}

fn path_parts(operand: &OperandSyntax) -> (bool, &DisplayPath, &Option<DisplayPath>) {
    match operand {
        OperandSyntax::Literal { .. } => panic!("expected a path operand"),
        OperandSyntax::PathRef { raw, path, alias } => (*raw, path, alias),
    }
}

#[test]
fn parse_check_bounds_info() {
    // Assert that the parse was successful

    // Float
    assert!(parse_expression("0.0 < arg").is_ok());
    assert!(parse_expression("0.0 <= arg").is_ok());
    assert!(parse_expression("0.0 <= arg as alternative_arg").is_ok());
    assert!(parse_expression("0.0 < arg <= 1.0").is_ok());
    assert!(parse_expression("0.0 < arg as alternative_arg <= 1.0").is_ok());
    assert!(parse_expression("arg < 1.0").is_ok());
    assert!(parse_expression("arg <= 1.0").is_ok());
    assert!(parse_expression("arg as alternative_arg <= 1.0").is_ok());

    // Int
    assert!(parse_expression("-1 < arg").is_ok());
    assert!(parse_expression("-1 < -2").is_ok());
    assert!(parse_expression("-1 < arg as alternative_arg <= 2").is_ok());
}

#[test]
fn parse_two_operand_literals() {
    let ace: Ace = parse_expression("0 < 1").unwrap();
    assert_eq!(literal_text(&ace.first), "0");
    assert!(matches!(
        ace.comp_first_to_second,
        ComparisonOperator::Lesser
    ));
    assert_eq!(literal_text(&ace.second), "1");
    assert!(ace.tail.is_none());
}

#[test]
fn parse_three_operand_chain() {
    let ace = parse_expression("0.0 < arg <= 1.0").unwrap();
    assert_eq!(literal_text(&ace.first), "0.0");
    assert!(matches!(
        ace.comp_first_to_second,
        ComparisonOperator::Lesser
    ));
    let (raw, path, alias) = path_parts(&ace.second);
    assert!(!raw);
    assert_eq!(path.segments, vec!["arg".to_string()]);
    assert!(alias.is_none());
    let (op23, third) = ace.tail.as_ref().unwrap();
    assert!(matches!(op23, ComparisonOperator::LesserOrEqual));
    assert_eq!(literal_text(third), "1.0");
}

#[test]
fn parse_all_operators() {
    for (text, expected) in [
        ("a < b", ComparisonOperator::Lesser),
        ("a <= b", ComparisonOperator::LesserOrEqual),
        ("a == b", ComparisonOperator::Equal),
        ("a >= b", ComparisonOperator::GreaterOrEqual),
        ("a > b", ComparisonOperator::Greater),
    ] {
        let ace = parse_expression(text).unwrap();
        assert_eq!(ace.comp_first_to_second.as_str(), expected.as_str());
    }
}

#[test]
fn parse_dotted_and_indexed_paths() {
    let ace = parse_expression("self.field1 < anon.0").unwrap();
    let (_, path, _) = path_parts(&ace.first);
    assert_eq!(path.segments, vec!["self".to_string(), "field1".to_string()]);
    assert_eq!(path.render(), "self.field1");
    let (_, path, _) = path_parts(&ace.second);
    assert_eq!(path.segments, vec!["anon".to_string(), "0".to_string()]);
    assert_eq!(ace.second.display_name(), Some("anon.0".to_string()));
}

#[test]
fn parse_alias_overrides_display() {
    let ace = parse_expression("self.field1 as field1 > 0.0").unwrap();
    let (raw, path, alias) = path_parts(&ace.first);
    assert!(!raw);
    assert_eq!(path.render(), "self.field1");
    assert_eq!(alias.as_ref().unwrap().render(), "field1");
    assert_eq!(ace.first.display_name(), Some("field1".to_string()));

    // A dotted alias
    let ace = parse_expression("a.b as x.y.0 > 0").unwrap();
    assert_eq!(ace.first.display_name(), Some("x.y.0".to_string()));
}

#[test]
fn parse_raw_suppresses_display() {
    let ace = parse_expression("0 > raw arg").unwrap();
    let (raw, path, alias) = path_parts(&ace.second);
    assert!(raw);
    assert_eq!(path.render(), "arg");
    assert!(alias.is_none());
    assert_eq!(ace.second.display_name(), None);

    // An alias after raw is parsed but discarded for display
    let ace = parse_expression("0 > raw arg as alternative_arg").unwrap();
    let (raw, path, alias) = path_parts(&ace.second);
    assert!(raw);
    assert_eq!(path.render(), "arg");
    assert_eq!(alias.as_ref().unwrap().render(), "alternative_arg");
    assert_eq!(ace.second.display_name(), None);

    // A variable that is itself named raw
    let ace = parse_expression("raw < 2").unwrap();
    let (raw, path, _) = path_parts(&ace.first);
    assert!(!raw);
    assert_eq!(path.render(), "raw");
    assert_eq!(ace.first.display_name(), Some("raw".to_string()));

    // raw directly followed by as: raw is the variable, the alias follows
    let ace = parse_expression("raw as x < 2").unwrap();
    let (raw, path, alias) = path_parts(&ace.first);
    assert!(!raw);
    assert_eq!(path.render(), "raw");
    assert_eq!(alias.as_ref().unwrap().render(), "x");
    assert_eq!(ace.first.display_name(), Some("x".to_string()));
}

#[test]
fn parse_literal_shapes() {
    // Type suffixes and exponents are carried as raw text
    let ace = parse_expression("5i32 <= -1i32").unwrap();
    assert_eq!(literal_text(&ace.first), "5i32");
    assert_eq!(literal_text(&ace.second), "-1i32");

    let ace = parse_expression("1e10 > 1.5e-3").unwrap();
    assert_eq!(literal_text(&ace.first), "1e10");
    assert_eq!(literal_text(&ace.second), "1.5e-3");

    let ace = parse_expression("1.7f32 == 1.7f32").unwrap();
    assert_eq!(literal_text(&ace.first), "1.7f32");

    // A space between the minus sign and the digits is allowed
    let ace = parse_expression("- 1 < 0").unwrap();
    assert_eq!(literal_text(&ace.first), "-1");
}

#[test]
fn parse_whitespace_insensitive() {
    let ace = parse_expression("  a . b  <=  1.0  ").unwrap();
    let (_, path, _) = path_parts(&ace.first);
    assert_eq!(path.render(), "a.b");
    assert_eq!(literal_text(&ace.second), "1.0");
}

#[test]
fn parse_error_expected_operand() {
    assert_eq!(parse_expression("").unwrap_err(), ParseError::ExpectedOperand);
    assert_eq!(parse_expression("< 1").unwrap_err(), ParseError::ExpectedOperand);
    assert_eq!(parse_expression("1 < -").unwrap_err(), ParseError::ExpectedOperand);
    assert_eq!(parse_expression("1 < - x").unwrap_err(), ParseError::ExpectedOperand);
    assert_eq!(parse_expression("$ < 1").unwrap_err(), ParseError::ExpectedOperand);
}

#[test]
fn parse_error_expected_operator() {
    // After only one operand, a missing operator is an error ...
    assert_eq!(parse_expression("arg").unwrap_err(), ParseError::ExpectedOperator);
    assert_eq!(parse_expression("a b").unwrap_err(), ParseError::ExpectedOperator);
    assert_eq!(parse_expression("1 2").unwrap_err(), ParseError::ExpectedOperator);
    // ... but after two operands it only ends the chain
    assert!(parse_expression("1 < 2").is_ok());
}

#[test]
fn parse_error_malformed_path() {
    assert_eq!(parse_expression("a. < 1").unwrap_err(), ParseError::MalformedPath);
    assert_eq!(parse_expression("a.b. < 1").unwrap_err(), ParseError::MalformedPath);
    assert_eq!(parse_expression("a as < 1").unwrap_err(), ParseError::MalformedPath);
}

#[test]
fn parse_error_trailing_input() {
    assert_eq!(parse_expression("1 < 2 junk").unwrap_err(), ParseError::TrailingInput);
    assert_eq!(parse_expression("1 < 2 = 3").unwrap_err(), ParseError::TrailingInput);
    assert_eq!(parse_expression("1 < 2 < 3 $").unwrap_err(), ParseError::TrailingInput);
}

#[test]
fn parse_error_messages() {
    assert_eq!(
        ParseError::ExpectedOperator.message(),
        "no comparison operator could be identified, expected one of `<, <=, ==, >=, >`"
    );
    assert_eq!(
        ParseError::ExpectedOperand.message(),
        "expected a literal or a value reference"
    );
    assert_eq!(ParseError::MalformedPath.message(), "expected a path segment");
    assert_eq!(
        ParseError::TrailingInput.message(),
        "unexpected tokens behind the comparison"
    );
}
