use vstd::prelude::*;
use vstd::std_specs::cmp::PartialEqSpec;
use vstd::std_specs::cmp::PartialOrdSpec;
use core::cmp::Ordering;

verus! {

/// Defines a comparison between two values.
///
/// Each variant maps to a boolean predicate over an ordered pair and to a
/// fixed one- or two-character symbol used when a failed chain is rendered.
#[derive(Debug, Clone, Copy, PartialEq, Eq, Structural)]
pub enum ComparisonOperator {
    Lesser,
    LesserOrEqual,
    Equal,
    GreaterOrEqual,
    Greater,
}

impl ComparisonOperator {
    /// The canonical textual symbol of the operator.
    pub open spec fn symbol(self) -> Seq<char> {
        match self {
            ComparisonOperator::Lesser => "<"@,
            ComparisonOperator::LesserOrEqual => "<="@,
            ComparisonOperator::Equal => "=="@,
            ComparisonOperator::GreaterOrEqual => ">="@,
            ComparisonOperator::Greater => ">"@,
        }
    }

    /// What the operator means on a pair, through the pair's own ordering
    /// capability: the relation holds exactly when `partial_cmp` (for `==`,
    /// `eq`) decides it. An incomparable pair makes every relation false.
    pub open spec fn holds_on<T: PartialOrd>(self, first_val: &T, second_val: &T) -> bool {
        match self {
            ComparisonOperator::Lesser => first_val.partial_cmp_spec(second_val) == Some(
                Ordering::Less,
            ),
            ComparisonOperator::LesserOrEqual => first_val.partial_cmp_spec(second_val) == Some(
                Ordering::Less,
            ) || first_val.partial_cmp_spec(second_val) == Some(Ordering::Equal),
            ComparisonOperator::Equal => first_val.eq_spec(second_val),
            ComparisonOperator::GreaterOrEqual => first_val.partial_cmp_spec(second_val) == Some(
                Ordering::Greater,
            ) || first_val.partial_cmp_spec(second_val) == Some(Ordering::Equal),
            ComparisonOperator::Greater => first_val.partial_cmp_spec(second_val) == Some(
                Ordering::Greater,
            ),
        }
    }

    /// Formats the enum value into a static string slice.
    pub fn as_str(&self) -> (r: &'static str)
        ensures
            r@ == self.symbol(),
    {
        match self {
            ComparisonOperator::Lesser => "<",
            ComparisonOperator::LesserOrEqual => "<=",
            ComparisonOperator::Equal => "==",
            ComparisonOperator::GreaterOrEqual => ">=",
            ComparisonOperator::Greater => ">",
        }
    }

    /// Compares the ordering of two values: returns the outcome of
    /// `first_val self second_val`.
    ///
    /// For a type whose `PartialEq` and `PartialOrd` implementations obey
    /// their specifications (all integer primitives do), the result is exactly
    /// `holds_on`: the native relational comparison of the pair.
    pub fn is_true<T: PartialOrd>(&self, first_val: &T, second_val: &T) -> (r: bool)
        ensures
            T::obeys_partial_cmp_spec() && T::obeys_eq_spec() ==> r == self.holds_on(
                first_val,
                second_val,
            ),
    {
        match self {
            ComparisonOperator::Lesser => first_val.lt(second_val),
            ComparisonOperator::LesserOrEqual => first_val.le(second_val),
            ComparisonOperator::Equal => first_val.eq(second_val),
            ComparisonOperator::GreaterOrEqual => first_val.ge(second_val),
            ComparisonOperator::Greater => first_val.gt(second_val),
        }
    }
}

/// Operator correctness: on a totally ordered primitive such as `i32`, each of
/// the five operators' `holds_on` outcome coincides with the corresponding
/// native relational comparison of the pair.
pub proof fn lemma_operator_matches_native(op: ComparisonOperator, a: i32, b: i32)
    ensures
        op == ComparisonOperator::Lesser ==> op.holds_on(&a, &b) == (a < b),
        op == ComparisonOperator::LesserOrEqual ==> op.holds_on(&a, &b) == (a <= b),
        op == ComparisonOperator::Equal ==> op.holds_on(&a, &b) == (a == b),
        op == ComparisonOperator::GreaterOrEqual ==> op.holds_on(&a, &b) == (a >= b),
        op == ComparisonOperator::Greater ==> op.holds_on(&a, &b) == (a > b),
{
}

} // verus!
