use compare_variables::ComparisonError;
use compare_variables::ComparisonErrorTrait;
use compare_variables::ComparisonOperator;
use compare_variables::ComparisonValue;
use compare_variables::OperandSyntax;
use compare_variables::parse_expression;

fn lit<T: PartialOrd>(value: T) -> ComparisonValue<T> {
    ComparisonValue::new(value, None)
}

fn named<T: PartialOrd>(value: T, name: &str) -> ComparisonValue<T> {
    ComparisonValue::new(value, Some(String::from(name)))
}

/// Each operator's outcome equals the corresponding native comparison.
#[test]
fn operators_match_native_comparison() {
    let samples: [(i32, i32); 5] = [(0, 1), (1, 0), (2, 2), (-3, 3), (i32::MIN, i32::MAX)];
    for (a, b) in samples {
        assert_eq!(ComparisonOperator::Lesser.is_true(&a, &b), a < b);
        assert_eq!(ComparisonOperator::LesserOrEqual.is_true(&a, &b), a <= b);
        assert_eq!(ComparisonOperator::Equal.is_true(&a, &b), a == b);
        assert_eq!(ComparisonOperator::GreaterOrEqual.is_true(&a, &b), a >= b);
        assert_eq!(ComparisonOperator::Greater.is_true(&a, &b), a > b);
    }
    // An incomparable pair makes every relation false except none
    let nan = f64::NAN;
    assert!(!ComparisonOperator::Lesser.is_true(&nan, &1.0));
    assert!(!ComparisonOperator::LesserOrEqual.is_true(&nan, &1.0));
    assert!(!ComparisonOperator::Equal.is_true(&nan, &1.0));
    assert!(!ComparisonOperator::GreaterOrEqual.is_true(&nan, &1.0));
    assert!(!ComparisonOperator::Greater.is_true(&nan, &1.0));
}

#[test]
fn operator_symbols() {
    assert_eq!(ComparisonOperator::Lesser.as_str(), "<");
    assert_eq!(ComparisonOperator::LesserOrEqual.as_str(), "<=");
    assert_eq!(ComparisonOperator::Equal.as_str(), "==");
    assert_eq!(ComparisonOperator::GreaterOrEqual.as_str(), ">=");
    assert_eq!(ComparisonOperator::Greater.as_str(), ">");
}

/// When the first link breaks, the third operand is carried unevaluated and
/// the rendered message still shows the whole chain.
#[test]
fn chain_short_circuit_carries_third() {
    let err = ComparisonError::new(
        lit(3),
        ComparisonOperator::Lesser,
        lit(2),
        ComparisonOperator::Lesser,
        // 2 < 100 holds, but it must never be checked
        Some(lit(100)),
    )
    .unwrap_err();
    assert_eq!(err.third_val().unwrap().value, 100);
    assert_eq!(err.message(), "`3 < 2 < 100` is false");
}

/// Parsing then evaluating a two-operand chain.
#[test]
fn two_operand_idempotence() {
    let eval = |text: &str| -> Result<(), ComparisonError<i32>> {
        let ace = parse_expression(text).unwrap();
        let value = |operand: &OperandSyntax| match operand {
            OperandSyntax::Literal { text } => lit(text.parse().unwrap()),
            OperandSyntax::PathRef { .. } => panic!("expected literals"),
        };
        assert!(ace.tail.is_none());
        ComparisonError::new(
            value(&ace.first),
            ace.comp_first_to_second,
            value(&ace.second),
            ComparisonOperator::Equal,
            None,
        )
    };
    assert!(eval("0 < 1").is_ok());
    let err = eval("1 < 0").unwrap_err();
    assert_eq!(err.message(), "`1 < 0` is false");
}

/// Display-name rule: a named operand renders as `name (value: v)`, a literal
/// as the bare value, and `raw` suppresses the name even before `as`.
#[test]
fn display_name_rule() {
    assert_eq!(named(1, "x").render(), "x (value: 1)");
    assert_eq!(lit(2).render(), "2");

    let ace = parse_expression("raw x as y > 2").unwrap();
    assert_eq!(ace.first.display_name(), None);
    let first = ComparisonValue::new(1, ace.first.display_name());
    assert_eq!(first.render(), "1");
}

/// Boundary inclusivity of `<=` against `<`.
#[test]
fn boundary_inclusivity() {
    let eval = |text: &str, arg: f64| -> Result<(), ComparisonError<f64>> {
        let ace = parse_expression(text).unwrap();
        let value = |operand: &OperandSyntax| match operand {
            OperandSyntax::Literal { text } => lit(text.parse().unwrap()),
            OperandSyntax::PathRef { .. } => {
                ComparisonValue::new(arg, operand.display_name())
            }
        };
        let (op23, third) = match &ace.tail {
            Some((op, operand)) => (*op, Some(value(operand))),
            None => (ComparisonOperator::Equal, None),
        };
        ComparisonError::new(
            value(&ace.first),
            ace.comp_first_to_second,
            value(&ace.second),
            op23,
            third,
        )
    };
    assert!(eval("0 <= arg <= 1", 1.0).is_ok());
    let err = eval("0 < arg <= 1", 0.0).unwrap_err();
    // It fails at the first link, yet the whole chain is rendered; the
    // literals render as the resolved values, here `f64` ones
    assert_eq!(err.message(), "`0.0 < arg (value: 0.0) <= 1.0` is false");
}

/// Scenario: a three-operand failure with a display name in the middle.
#[test]
fn three_operand_failure_message() {
    let err = ComparisonError::new(
        lit(0.0),
        ComparisonOperator::Lesser,
        named(2.0, "x"),
        ComparisonOperator::LesserOrEqual,
        Some(lit(1.0)),
    )
    .unwrap_err();
    assert_eq!(err.message(), "`0.0 < x (value: 2.0) <= 1.0` is false");
}

/// Scenario: a true relation returns success; its negation fails and renders.
#[test]
fn greater_success_and_negation() {
    assert!(ComparisonError::new(
        lit(5),
        ComparisonOperator::Greater,
        lit(-1),
        ComparisonOperator::Equal,
        None,
    )
    .is_ok());
    let err = ComparisonError::new(
        lit(5),
        ComparisonOperator::LesserOrEqual,
        lit(-1),
        ComparisonOperator::Equal,
        None,
    )
    .unwrap_err();
    assert_eq!(err.message(), "`5 <= -1` is false");
}

/// Round trip: re-parsing the rendered chain (without the backticks and the
/// `is false` suffix) gives the same operator sequence and operand arity.
#[test]
fn round_trip_rendered_chain() {
    let err = ComparisonError::new(
        lit(0.0),
        ComparisonOperator::Lesser,
        lit(2.0),
        ComparisonOperator::LesserOrEqual,
        Some(lit(1.0)),
    )
    .unwrap_err();
    let message = err.message();
    let chain = message
        .strip_prefix('`')
        .unwrap()
        .strip_suffix("` is false")
        .unwrap();
    assert_eq!(chain, "0.0 < 2.0 <= 1.0");
    let ace = parse_expression(chain).unwrap();
    assert_eq!(ace.comp_first_to_second.as_str(), "<");
    let (op23, _) = ace.tail.as_ref().unwrap();
    assert_eq!(op23.as_str(), "<=");
    assert!(matches!(&ace.first, OperandSyntax::Literal { text } if text == "0.0"));
    assert!(matches!(&ace.second, OperandSyntax::Literal { text } if text == "2.0"));

    // The two-operand form, with a negative literal
    let err = ComparisonError::new(
        lit(-1),
        ComparisonOperator::GreaterOrEqual,
        lit(3),
        ComparisonOperator::Equal,
        None,
    )
    .unwrap_err();
    let message = err.message();
    let chain = message
        .strip_prefix('`')
        .unwrap()
        .strip_suffix("` is false")
        .unwrap();
    assert_eq!(chain, "-1 >= 3");
    let ace = parse_expression(chain).unwrap();
    assert_eq!(ace.comp_first_to_second.as_str(), ">=");
    assert!(ace.tail.is_none());
    assert!(matches!(&ace.first, OperandSyntax::Literal { text } if text == "-1"));
}

/// Failures over different value types behind one erased interface.
#[test]
fn type_erased_failures() {
    let int_err = ComparisonError::new(
        lit(1),
        ComparisonOperator::Greater,
        named(2, "y"),
        ComparisonOperator::Equal,
        None,
    )
    .unwrap_err();
    let float_err = ComparisonError::new(
        lit(1.0),
        ComparisonOperator::Greater,
        lit(2.0),
        ComparisonOperator::LesserOrEqual,
        Some(lit(3.0)),
    )
    .unwrap_err();
    let failures: Vec<Box<dyn ComparisonErrorTrait>> = vec![Box::new(int_err), Box::new(float_err)];
    assert_eq!(failures[0].fmt_first_val(), "1");
    assert_eq!(failures[0].fmt_second_val(), "y (value: 2)");
    assert!(failures[0].fmt_third_val().is_none());
    assert_eq!(failures[0].comp_first_to_second().as_str(), ">");
    assert_eq!(failures[1].fmt_third_val().unwrap(), "3.0");
    assert_eq!(failures[1].comp_second_to_third().as_str(), "<=");
}

/// The evaluator's accessors hand back exactly what was supplied.
#[test]
fn accessors_return_inputs() {
    let err = ComparisonError::new(
        named(1, "a"),
        ComparisonOperator::Equal,
        named(2, "b"),
        ComparisonOperator::Equal,
        Some(named(3, "c")),
    )
    .unwrap_err();
    assert_eq!(err.first_val().value, 1);
    assert_eq!(err.first_val().variable_name, Some(String::from("a")));
    assert_eq!(err.second_val().value, 2);
    assert_eq!(err.third_val().unwrap().value, 3);
}
