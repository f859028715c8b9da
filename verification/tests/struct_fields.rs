use compare_variables::ComparisonError;
use compare_variables::ComparisonOperator;
use compare_variables::ComparisonValue;
use compare_variables::OperandSyntax;
use compare_variables::parse_expression;

struct NamedFields {
    field1: f64,
    field2: f64,
}

struct AnonymousField(f64);

/// Resolves one parsed operand against an environment of named values, the
/// way the compile-time adapter would.
fn resolve(operand: &OperandSyntax, env: &dyn Fn(&str) -> f64) -> ComparisonValue<f64> {
    match operand {
        OperandSyntax::Literal { text } => ComparisonValue::new(text.parse().unwrap(), None),
        OperandSyntax::PathRef { path, .. } => {
            ComparisonValue::new(env(&path.render()), operand.display_name())
        }
    }
}

/// Parses and evaluates one expression over `f64` values.
fn check(text: &str, env: &dyn Fn(&str) -> f64) -> Result<(), ComparisonError<f64>> {
    let ace = parse_expression(text).unwrap();
    let third = ace.tail.as_ref().map(|(_, operand)| resolve(operand, env));
    let op23 = match &ace.tail {
        Some((op, _)) => *op,
        None => ComparisonOperator::Equal,
    };
    ComparisonError::new(
        resolve(&ace.first, env),
        ace.comp_first_to_second,
        resolve(&ace.second, env),
        op23,
        third,
    )
}

impl NamedFields {
    fn field1_larger_than_0(&self) -> bool {
        check("self.field1 > 0.0", &|_| self.field1).is_ok()
    }

    fn field1_larger_than_field2(&self) -> bool {
        check("self.field1 as field1 > self.field2", &|path| match path {
            "self.field1" => self.field1,
            _ => self.field2,
        })
        .is_ok()
    }

    fn value_bigger_than_field1(&self, value: f64) -> Result<(), ComparisonError<f64>> {
        check("self.field1 < value", &|path| match path {
            "self.field1" => self.field1,
            _ => value,
        })
    }

    fn value_bigger_than_field2(&self, value: f64) -> Result<(), ComparisonError<f64>> {
        check("self.field2 as field2 < value", &|path| match path {
            "self.field2" => self.field2,
            _ => value,
        })
    }
}

#[test]
fn test_named_struct_fields() {
    let instance = NamedFields {
        field1: 1.0,
        field2: 2.0,
    };

    assert!(check("0.0 < instance.field1 <= 1.0", &|_| instance.field1).is_ok());
    assert!(instance.field1_larger_than_0());
    assert!(!instance.field1_larger_than_field2());

    // Check the error messages
    let error_msg = check(
        "0.0 < instance.field1 as this_struct_instance.field1 < 1.0",
        &|_| instance.field1,
    )
    .unwrap_err()
    .message();
    assert!(error_msg.contains("`0.0 < this_struct_instance.field1 (value: 1.0) < 1.0` is false"));

    let error_msg = check("0.0 > instance.field2", &|_| instance.field2)
        .unwrap_err()
        .message();
    assert!(error_msg.contains("`0.0 > instance.field2 (value: 2.0)` is false"));

    let error_msg = instance
        .value_bigger_than_field1(1.0)
        .unwrap_err()
        .message();
    assert!(error_msg.contains("`self.field1 (value: 1.0) < value (value: 1.0)` is false"));
    let error_msg = instance
        .value_bigger_than_field2(1.0)
        .unwrap_err()
        .message();
    assert!(error_msg.contains("`field2 (value: 2.0) < value (value: 1.0)` is false"));
}

#[test]
fn test_anonymous_struct_fields() {
    let anon = AnonymousField(1.0);
    assert!(check("0.0 < anon.0 <= 1.0", &|_| anon.0).is_ok());
    let err = check("0.0 > anon.0", &|_| anon.0).unwrap_err();
    assert_eq!(err.message(), "`0.0 > anon.0 (value: 1.0)` is false");
}
