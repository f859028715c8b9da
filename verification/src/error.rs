use vstd::prelude::*;
use vstd::std_specs::cmp::PartialEqSpec;
use vstd::std_specs::cmp::PartialOrdSpec;
use vstd::string::StringExecFns;
use crate::operator::ComparisonOperator;
use crate::value::ComparisonValue;
use crate::value::name_view;
use crate::value::operand_text;

verus! {

/// The record of a failed relational chain: the compared values, the
/// operators between them, and — through `message` — a deterministic rendering
/// of the chain that failed.
///
/// The constructor `ComparisonError::new` compares two or three input values
/// with each other using the given `ComparisonOperator`s and returns an
/// instance of this struct as `Result::Err(ComparisonError)` if a comparison
/// returned false (otherwise it returns `Result::Ok(())`), allowing seamless
/// use with the `?` operator.
#[derive(Clone)]
pub struct ComparisonError<T: PartialOrd> {
    pub first_val: ComparisonValue<T>,
    pub comp_first_to_second: ComparisonOperator,
    pub second_val: ComparisonValue<T>,
    pub comp_second_to_third: ComparisonOperator,
    pub third_val: Option<ComparisonValue<T>>,
}

/// What evaluating a chain returns: success when every supplied relation
/// holds; otherwise the failure record carrying all the inputs — including,
/// for display completeness, the third value and its operator even when the
/// chain already broke at the first link and the second relation was never
/// checked.
pub open spec fn evaluate_spec<T: PartialOrd>(
    first_val: ComparisonValue<T>,
    comp_first_to_second: ComparisonOperator,
    second_val: ComparisonValue<T>,
    comp_second_to_third: ComparisonOperator,
    third_val: Option<ComparisonValue<T>>,
) -> Result<(), ComparisonError<T>> {
    if !comp_first_to_second.holds_on(&first_val.value, &second_val.value) {
        Err(
            ComparisonError {
                first_val,
                comp_first_to_second,
                second_val,
                comp_second_to_third,
                third_val,
            },
        )
    } else if third_val matches Some(third) && !comp_second_to_third.holds_on(
        &second_val.value,
        &third.value,
    ) {
        Err(
            ComparisonError {
                first_val,
                comp_first_to_second,
                second_val,
                comp_second_to_third,
                third_val,
            },
        )
    } else {
        Ok(())
    }
}

impl<T: PartialOrd> ComparisonError<T> {
    /// Constructs a new instance of `ComparisonError` if the comparison
    /// defined by the input arguments fails.
    ///
    /// `first_val` is compared to `second_val` using `comp_first_to_second`.
    /// If a `third_val` is given, `second_val` is compared to it using
    /// `comp_second_to_third`; if none is given, `comp_second_to_third` is
    /// never evaluated and can be chosen arbitrarily. If one of these
    /// comparisons evaluates to false, the failure record is returned as
    /// `Result::Err`; otherwise the result is `Result::Ok(())`.
    pub fn new(
        first_val: ComparisonValue<T>,
        comp_first_to_second: ComparisonOperator,
        second_val: ComparisonValue<T>,
        comp_second_to_third: ComparisonOperator,
        third_val: Option<ComparisonValue<T>>,
    ) -> (r: Result<(), Self>)
        ensures
            T::obeys_partial_cmp_spec() && T::obeys_eq_spec() ==> r == evaluate_spec(
                first_val,
                comp_first_to_second,
                second_val,
                comp_second_to_third,
                third_val,
            ),
            r matches Err(e) ==> e == (ComparisonError {
                first_val,
                comp_first_to_second,
                second_val,
                comp_second_to_third,
                third_val,
            }),
    {
        if !comp_first_to_second.is_true(&first_val.value, &second_val.value) {
            return Err(
                Self { first_val, comp_first_to_second, second_val, comp_second_to_third, third_val },
            );
        }
        if let Some(third) = &third_val {
            if !comp_second_to_third.is_true(&second_val.value, &third.value) {
                return Err(
                    Self {
                        first_val,
                        comp_first_to_second,
                        second_val,
                        comp_second_to_third,
                        third_val,
                    },
                );
            }
        }
        Ok(())
    }

    /// Returns a reference to the first value.
    pub fn first_val(&self) -> (r: &ComparisonValue<T>)
        ensures
            r == &self.first_val,
    {
        &self.first_val
    }

    /// Returns a reference to the second value.
    pub fn second_val(&self) -> (r: &ComparisonValue<T>)
        ensures
            r == &self.second_val,
    {
        &self.second_val
    }

    /// Returns a reference to the third value, if one was given.
    pub fn third_val(&self) -> (r: Option<&ComparisonValue<T>>)
        ensures
            match r {
                Some(v) => self.third_val matches Some(t) && v == &t,
                None => self.third_val is None,
            },
    {
        self.third_val.as_ref()
    }
}

/// The text of a rendered chain: the operand texts joined by the operator
/// symbols, with single spaces in between.
pub open spec fn chain_text(
    first_text: Seq<char>,
    comp_first_to_second: ComparisonOperator,
    second_text: Seq<char>,
    tail: Option<(ComparisonOperator, Seq<char>)>,
) -> Seq<char> {
    let two = first_text + " "@ + comp_first_to_second.symbol() + " "@ + second_text;
    match tail {
        Some((comp_second_to_third, third_text)) => two + " "@ + comp_second_to_third.symbol()
            + " "@ + third_text,
        None => two,
    }
}

/// The canonical failure message: the rendered chain between backticks,
/// followed by ``` is false``.
pub open spec fn message_text(
    first_text: Seq<char>,
    comp_first_to_second: ComparisonOperator,
    second_text: Seq<char>,
    tail: Option<(ComparisonOperator, Seq<char>)>,
) -> Seq<char> {
    "`"@ + chain_text(first_text, comp_first_to_second, second_text, tail) + "` is false"@
}

/// The failure message of the record `e`, given the debug texts that its
/// three values render to (the third text is ignored when no third value
/// exists).
pub open spec fn message_text_with<T: PartialOrd>(
    e: ComparisonError<T>,
    first_text: Seq<char>,
    second_text: Seq<char>,
    third_text: Seq<char>,
) -> Seq<char> {
    message_text(
        operand_text(name_view(&e.first_val.variable_name), first_text),
        e.comp_first_to_second,
        operand_text(name_view(&e.second_val.variable_name), second_text),
        match e.third_val {
            Some(third) => Some(
                (e.comp_second_to_third, operand_text(name_view(&third.variable_name), third_text)),
            ),
            None => None,
        },
    )
}

/// Builds the rendered chain from already rendered operand texts.
pub fn render_chain(
    first_text: &str,
    comp_first_to_second: ComparisonOperator,
    second_text: &str,
    tail: Option<(ComparisonOperator, &str)>,
) -> (r: String)
    ensures
        r@ == chain_text(
            first_text@,
            comp_first_to_second,
            second_text@,
            match tail {
                Some((op, t)) => Some((op, t@)),
                None => None,
            },
        ),
{
    let mut out = String::from_str(first_text);
    out.append(" ");
    out.append(comp_first_to_second.as_str());
    out.append(" ");
    out.append(second_text);
    if let Some((comp_second_to_third, third_text)) = tail {
        out.append(" ");
        out.append(comp_second_to_third.as_str());
        out.append(" ");
        out.append(third_text);
    }
    out
}

impl<T: PartialOrd + core::fmt::Debug> ComparisonError<T> {
    /// Renders the canonical failure message. The whole originally written
    /// chain appears, the third operand included even when the chain already
    /// broke at the first link.
    pub fn message(&self) -> (r: String)
        ensures
            exists|first_text: Seq<char>, second_text: Seq<char>, third_text: Seq<char>|
                r@ == message_text_with(*self, first_text, second_text, third_text),
    {
        let first = self.first_val.render();
        let second = self.second_val.render();
        let ghost first_text: Seq<char> = choose|t: Seq<char>|
            first@ == operand_text(name_view(&self.first_val.variable_name), t);
        let ghost second_text: Seq<char> = choose|t: Seq<char>|
            second@ == operand_text(name_view(&self.second_val.variable_name), t);
        let mut out = String::from_str("`");
        match &self.third_val {
            Some(third) => {
                let third_rendered = third.render();
                let ghost third_text: Seq<char> = choose|t: Seq<char>|
                    third_rendered@ == operand_text(name_view(&third.variable_name), t);
                let chain = render_chain(
                    first.as_str(),
                    self.comp_first_to_second,
                    second.as_str(),
                    Some((self.comp_second_to_third, third_rendered.as_str())),
                );
                out.append(chain.as_str());
                out.append("` is false");
                proof {
                    assert(out@ == message_text_with(*self, first_text, second_text, third_text));
                }
            },
            None => {
                let chain = render_chain(
                    first.as_str(),
                    self.comp_first_to_second,
                    second.as_str(),
                    None,
                );
                out.append(chain.as_str());
                out.append("` is false");
                proof {
                    assert(out@ == message_text_with(
                        *self,
                        first_text,
                        second_text,
                        Seq::<char>::empty(),
                    ));
                }
            },
        }
        out
    }
}

/// Abstracts a concrete `ComparisonError<T>` behind a capability interface
/// where `T` is erased: the rendered operand texts and the two operators are
/// still reachable, so heterogeneous failures can be handled uniformly.
pub trait ComparisonErrorTrait {
    /// The display name of the first operand, as the erased view renders it.
    spec fn spec_first_name(&self) -> Option<Seq<char>>;

    /// The display name of the second operand.
    spec fn spec_second_name(&self) -> Option<Seq<char>>;

    /// Whether a third operand exists, and its display name when it does.
    spec fn spec_third_name(&self) -> Option<Option<Seq<char>>>;

    /// The two stored operators: between first and second, and between second
    /// and third.
    spec fn spec_ops(&self) -> (ComparisonOperator, ComparisonOperator);

    /// Returns the rendered representation of the first comparison value: the
    /// same `name (value: text)` shape the typed view renders, over the first
    /// operand's display name.
    fn fmt_first_val(&self) -> (r: String)
        ensures
            exists|value_text: Seq<char>| r@ == operand_text(self.spec_first_name(), value_text),
    ;

    /// Returns the rendered representation of the second comparison value.
    fn fmt_second_val(&self) -> (r: String)
        ensures
            exists|value_text: Seq<char>| r@ == operand_text(self.spec_second_name(), value_text),
    ;

    /// Returns the rendered representation of the third comparison value, or
    /// `None` exactly when no third value exists.
    fn fmt_third_val(&self) -> (r: Option<String>)
        ensures
            r is Some <==> self.spec_third_name() is Some,
            r matches Some(text) ==> exists|value_text: Seq<char>|
                text@ == operand_text(self.spec_third_name()->Some_0, value_text),
    ;

    /// Returns the comparison operator between the first and the second value.
    fn comp_first_to_second(&self) -> (r: ComparisonOperator)
        ensures
            r == self.spec_ops().0,
    ;

    /// Returns the comparison operator between the second and the third value:
    /// a copy of the operator given at construction, even when no third
    /// operand exists or its relation was never evaluated.
    fn comp_second_to_third(&self) -> (r: ComparisonOperator)
        ensures
            r == self.spec_ops().1,
    ;
}

impl<T: PartialOrd + core::fmt::Debug + Sync + Send + 'static> ComparisonErrorTrait
    for ComparisonError<T> {
    open spec fn spec_first_name(&self) -> Option<Seq<char>> {
        name_view(&self.first_val.variable_name)
    }

    open spec fn spec_second_name(&self) -> Option<Seq<char>> {
        name_view(&self.second_val.variable_name)
    }

    open spec fn spec_third_name(&self) -> Option<Option<Seq<char>>> {
        match self.third_val {
            Some(third) => Some(name_view(&third.variable_name)),
            None => None,
        }
    }

    open spec fn spec_ops(&self) -> (ComparisonOperator, ComparisonOperator) {
        (self.comp_first_to_second, self.comp_second_to_third)
    }

    fn fmt_first_val(&self) -> (r: String) {
        let r = self.first_val.render();
        proof {
            let value_text = choose|t: Seq<char>|
                r@ == operand_text(name_view(&self.first_val.variable_name), t);
            assert(r@ == operand_text(self.spec_first_name(), value_text));
        }
        r
    }

    fn fmt_second_val(&self) -> (r: String) {
        let r = self.second_val.render();
        proof {
            let value_text = choose|t: Seq<char>|
                r@ == operand_text(name_view(&self.second_val.variable_name), t);
            assert(r@ == operand_text(self.spec_second_name(), value_text));
        }
        r
    }

    fn fmt_third_val(&self) -> (r: Option<String>) {
        match &self.third_val {
            Some(third) => {
                let text = third.render();
                proof {
                    let value_text = choose|t: Seq<char>|
                        text@ == operand_text(name_view(&third.variable_name), t);
                    assert(text@ == operand_text(self.spec_third_name()->Some_0, value_text));
                }
                Some(text)
            },
            None => None,
        }
    }

    fn comp_first_to_second(&self) -> (r: ComparisonOperator) {
        self.comp_first_to_second
    }

    fn comp_second_to_third(&self) -> (r: ComparisonOperator) {
        self.comp_second_to_third
    }
}

/// Chain short-circuit: when the first relation is false, the chain fails
/// regardless of the second relation, and the failure record still carries the
/// second operator and the third value exactly as supplied — unevaluated, kept
/// purely so the rendered message shows the complete original chain.
pub proof fn lemma_chain_short_circuit<T: PartialOrd>(
    first_val: ComparisonValue<T>,
    comp_first_to_second: ComparisonOperator,
    second_val: ComparisonValue<T>,
    comp_second_to_third: ComparisonOperator,
    third_val: ComparisonValue<T>,
)
    requires
        !comp_first_to_second.holds_on(&first_val.value, &second_val.value),
    ensures
        evaluate_spec(
            first_val,
            comp_first_to_second,
            second_val,
            comp_second_to_third,
            Some(third_val),
        ) matches Err(e) && e.comp_second_to_third == comp_second_to_third && e.third_val == Some(
            third_val,
        ),
{
}

/// The rendered message of a three-operand failure places the rendering of the
/// (possibly unevaluated) third operand at the end of the chain, unchanged:
/// the message decomposes around it.
pub proof fn lemma_message_carries_third(
    first_text: Seq<char>,
    comp_first_to_second: ComparisonOperator,
    second_text: Seq<char>,
    comp_second_to_third: ComparisonOperator,
    third_text: Seq<char>,
)
    ensures
        message_text(
            first_text,
            comp_first_to_second,
            second_text,
            Some((comp_second_to_third, third_text)),
        ) =~= "`"@ + chain_text(first_text, comp_first_to_second, second_text, None) + " "@
            + comp_second_to_third.symbol() + " "@ + third_text + "` is false"@,
{
}

} // verus!
