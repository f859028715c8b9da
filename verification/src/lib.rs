//! Relational checks between two or three values of a partially ordered type.
//!
//! The crate has two halves that meet in the middle:
//!
//! - a runtime evaluator and formatter: [`ComparisonError::new`] compares two
//!   or three [`ComparisonValue`]s under [`ComparisonOperator`]s and, when a
//!   relation fails, returns a `ComparisonError` that renders the failed chain
//!   as a message such as `` `x (value: 1) > 2` is false ``;
//! - a parser for a small textual comparison grammar
//!   (`operand relop operand [relop operand]`, with `raw` and `as` modifiers
//!   and dotted paths), producing an [`Ace`] that an adapter can turn into a
//!   call of the evaluator.
//!
//! The parser is specified by [`spec_parse`], a mathematical mirror of the
//! grammar that [`parse_expression`] is proved to implement exactly; the
//! evaluator by [`evaluate_spec`]; the rendered message by [`message_text`].
//! [`lemma_round_trip`] ties the two halves together: re-parsing a rendered
//! chain yields the expression it came from.

mod ace;
mod error;
mod operator;
mod parse;
mod roundtrip;
pub mod scan;
mod value;

pub use ace::Ace;
pub use ace::AceView;
pub use ace::DisplayPath;
pub use ace::OperandSyntax;
pub use ace::OperandView;
pub use ace::joined;
pub use ace::lemma_joined_push;
pub use ace::path_wf;
pub use ace::segment_wf;
pub use error::ComparisonError;
pub use error::ComparisonErrorTrait;
pub use error::chain_text;
pub use error::evaluate_spec;
pub use error::lemma_chain_short_circuit;
pub use error::lemma_message_carries_third;
pub use error::message_text;
pub use error::message_text_with;
pub use error::render_chain;
pub use operator::ComparisonOperator;
pub use operator::lemma_operator_matches_native;
pub use parse::ParseError;
pub use parse::as_keyword;
pub use parse::lemma_parse_wf;
pub use parse::parse_expression;
pub use parse::parse_operator;
pub use parse::raw_keyword;
pub use parse::spec_after_path;
pub use parse::spec_operand_at;
pub use parse::spec_operator_at;
pub use parse::spec_parse;
pub use parse::spec_path_at;
pub use parse::spec_segment_at;
pub use roundtrip::atom_operand;
pub use roundtrip::atom_text;
pub use roundtrip::dotted_digits;
pub use roundtrip::ident_atom;
pub use roundtrip::is_op_start_char;
pub use roundtrip::lemma_round_trip;
pub use roundtrip::number_atom;
pub use roundtrip::unsigned_number_text;
pub use value::ComparisonValue;
pub use value::name_view;
pub use value::operand_text;
pub use value::render_operand;
