use vstd::prelude::*;
use vstd::string::StringExecFns;

verus! {

/// Wrapper around a value with an additional optional field for the variable
/// name (when comparing variables instead of literal values).
///
/// If a variable name is given, it is used when the error message of a failed
/// comparison is rendered, in addition to the value itself; it never affects
/// the comparison outcome.
#[derive(Debug, Clone)]
pub struct ComparisonValue<T: PartialOrd> {
    pub value: T,
    pub variable_name: Option<String>,
}

/// The view of an optional display name: the character sequence, if one is
/// present.
pub open spec fn name_view(name: &Option<String>) -> Option<Seq<char>> {
    match name {
        Some(n) => Some(n@),
        None => None,
    }
}

/// How one operand is rendered inside a failure message: the bare value text
/// when it has no display name, and `name (value: text)` when it has one.
pub open spec fn operand_text(name: Option<Seq<char>>, value_text: Seq<char>) -> Seq<char> {
    match name {
        Some(n) => n + " (value: "@ + value_text + ")"@,
        None => value_text,
    }
}

impl<T: PartialOrd> ComparisonValue<T> {
    /// Returns a new instance of `ComparisonValue`.
    pub fn new(value: T, variable_name: Option<String>) -> (r: Self)
        ensures
            r.value == value,
            r.variable_name == variable_name,
    {
        Self { value, variable_name }
    }
}

impl<T: PartialOrd + core::fmt::Debug> ComparisonValue<T> {
    /// Renders the operand for a failure message: the debug text of the value,
    /// prefixed with the display name when one is present.
    pub fn render(&self) -> (r: String)
        ensures
            exists|value_text: Seq<char>|
                r@ == operand_text(name_view(&self.variable_name), value_text),
    {
        let value_text = debug_text(&self.value);
        let r = render_operand(&self.variable_name, value_text.as_str());
        proof {
            assert(r@ == operand_text(name_view(&self.variable_name), value_text@));
        }
        r
    }
}

/// Relies on `format!` with `core::fmt::Debug`: renders the value with its
/// standard debug representation. Nothing is assumed of the resulting text.
#[verifier::external_body]
fn debug_text<T: core::fmt::Debug>(value: &T) -> String {
    format!("{:?}", value)
}

/// Builds the rendered text of one operand from its (already rendered) value
/// text and its optional display name.
pub fn render_operand(variable_name: &Option<String>, value_text: &str) -> (r: String)
    ensures
        r@ == operand_text(name_view(variable_name), value_text@),
{
    match variable_name {
        Some(name) => {
            let mut out = name.clone();
            out.append(" (value: ");
            out.append(value_text);
            out.append(")");
            out
        },
        None => String::from_str(value_text),
    }
}

} // verus!
