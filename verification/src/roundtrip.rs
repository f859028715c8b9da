use vstd::prelude::*;
use crate::ace::AceView;
use crate::ace::OperandView;
use crate::error::chain_text;
use crate::operator::ComparisonOperator;
use crate::parse::ParseError;
use crate::parse::spec_operand_at;
use crate::parse::spec_operator_at;
use crate::parse::spec_parse;
use crate::scan::digits_text;
use crate::scan::identifier_text;
use crate::scan::is_digit_char;
use crate::scan::is_ident_start_char;
use crate::scan::is_space_char;
use crate::scan::lemma_digits_end_stops;
use crate::scan::lemma_ident_end_stops;
use crate::scan::lemma_ws_end_stops;
use crate::scan::number_end;
use crate::scan::ws_end;

verus! {

/// Digits, a dot at position `k`, then more digits to the end.
pub open spec fn dotted_digits(t: Seq<char>, k: int) -> bool {
    &&& 0 < k
    &&& k + 1 < t.len()
    &&& t[k] == '.'
    &&& forall|m: int| 0 <= m < k ==> is_digit_char(t[m])
    &&& forall|m: int| k < m < t.len() ==> is_digit_char(t[m])
}

/// What the debug rendering of an unsigned number looks like: digits, or
/// digits around a single dot.
pub open spec fn unsigned_number_text(t: Seq<char>) -> bool {
    digits_text(t) || exists|k: int| dotted_digits(t, k)
}

/// A rendered number, possibly with a leading minus sign.
pub open spec fn number_atom(t: Seq<char>) -> bool {
    unsigned_number_text(t) || (t.len() > 1 && t[0] == '-' && unsigned_number_text(
        t.subrange(1, t.len() as int),
    ))
}

/// A rendered word: an identifier, as a bare `bool` or enum value renders.
pub open spec fn ident_atom(t: Seq<char>) -> bool {
    identifier_text(t)
}

/// An operand text as it stands in a rendered chain once display-name
/// annotations are stripped: a number or a word.
pub open spec fn atom_text(t: Seq<char>) -> bool {
    number_atom(t) || ident_atom(t)
}

/// The operand the parser reads back from an atom: a word becomes a path
/// reference (one segment, no modifiers), a number the literal it is.
pub open spec fn atom_operand(t: Seq<char>) -> OperandView {
    if ident_atom(t) {
        OperandView::PathRef { raw: false, path: seq![t], alias: None }
    } else {
        OperandView::Literal { text: t }
    }
}

/// Scanning a number embedded at `i`, terminated by a space or the end of the
/// text, consumes exactly the number.
proof fn lemma_number_end_at(s: Seq<char>, i: int, t: Seq<char>)
    requires
        0 <= i,
        i + t.len() <= s.len(),
        s.subrange(i, i + t.len()) == t,
        unsigned_number_text(t),
        i + t.len() == s.len() || s[i + t.len()] == ' ',
    ensures
        number_end(s, i) == i + t.len(),
{
    let e = i + t.len();
    assert(forall|m: int| i <= m < e ==> s[m] == t[m - i]) by {
        assert(forall|x: int| 0 <= x < t.len() ==> s.subrange(i, e)[x] == s[i + x]);
    }
    if digits_text(t) {
        lemma_digits_end_stops(s, i, e);
        lemma_ident_end_stops(s, e, e);
    } else {
        let k = choose|k: int| dotted_digits(t, k);
        lemma_digits_end_stops(s, i, i + k);
        assert(s[i + k] == '.');
        lemma_digits_end_stops(s, i + k + 1, e);
        lemma_ident_end_stops(s, e, e);
    }
}

/// A character that can begin a relational operator.
pub open spec fn is_op_start_char(c: char) -> bool {
    c == '<' || c == '>' || c == '='
}

/// Reading an operand at an atom embedded at `i` — terminated either by the
/// end of the text or by one space and an operator — consumes exactly the
/// atom and yields the operand it denotes.
proof fn lemma_operand_at_atom(s: Seq<char>, i: int, t: Seq<char>)
    requires
        0 <= i,
        i + t.len() <= s.len(),
        s.subrange(i, i + t.len()) == t,
        atom_text(t),
        i + t.len() == s.len() || (s[i + t.len()] == ' ' && i + t.len() + 1 < s.len()
            && is_op_start_char(s[i + t.len() + 1])),
    ensures
        spec_operand_at(s, i) == Ok::<(OperandView, int), ParseError>((atom_operand(t), i + t.len())),
{
    let e = i + t.len();
    assert(forall|m: int| i <= m < e ==> s[m] == t[m - i]) by {
        assert(forall|x: int| 0 <= x < t.len() ==> s.subrange(i, e)[x] == s[i + x]);
    }
    if ident_atom(t) {
        lemma_ident_end_stops(s, i, e);
        if e == s.len() {
            lemma_ws_end_stops(s, e, e);
        } else {
            lemma_ws_end_stops(s, e, e + 1);
        }
    } else if t[0] == '-' {
        let sub = t.subrange(1, t.len() as int);
        assert(s.subrange(i + 1, e) =~= sub);
        reveal_strlit("-");
        assert(is_digit_char(sub[0])) by {
            if !digits_text(sub) {
                let k = choose|k: int| dotted_digits(sub, k);
                assert(dotted_digits(sub, k));
            }
        }
        assert(s[i + 1] == sub[0]);
        lemma_ws_end_stops(s, i + 1, i + 1);
        lemma_number_end_at(s, i + 1, sub);
        assert("-"@ + s.subrange(i + 1, e) =~= t);
    } else {
        lemma_number_end_at(s, i, t);
    }
}

/// Operator symbols are one or two characters long and begin with an
/// operator character.
proof fn lemma_symbol_shape(op: ComparisonOperator)
    ensures
        1 <= op.symbol().len() <= 2,
        is_op_start_char(op.symbol()[0]),
{
    reveal_strlit("<");
    reveal_strlit("<=");
    reveal_strlit("==");
    reveal_strlit(">=");
    reveal_strlit(">");
}

/// An atom is non-empty, starts with a digit, a minus sign or an identifier
/// character, and so never with whitespace, a dot or an operator character.
proof fn lemma_atom_start(t: Seq<char>)
    requires
        atom_text(t),
    ensures
        t.len() > 0,
        is_digit_char(t[0]) || t[0] == '-' || is_ident_start_char(t[0]),
        !is_space_char(t[0]),
        !is_op_start_char(t[0]),
{
    if !ident_atom(t) {
        if unsigned_number_text(t) {
            if !digits_text(t) {
                let k = choose|k: int| dotted_digits(t, k);
                assert(dotted_digits(t, k));
            }
        }
    }
}

/// Reading the relational operator at a symbol embedded at `q`, followed by a
/// space or the end of the text, identifies exactly that operator.
proof fn lemma_operator_at_symbol(s: Seq<char>, q: int, op: ComparisonOperator)
    requires
        0 <= q,
        q + op.symbol().len() <= s.len(),
        s.subrange(q, q + op.symbol().len()) == op.symbol(),
        q + op.symbol().len() == s.len() || s[q + op.symbol().len()] == ' ',
    ensures
        spec_operator_at(s, q) == Some((op, q + op.symbol().len())),
{
    reveal_strlit("<");
    reveal_strlit("<=");
    reveal_strlit("==");
    reveal_strlit(">=");
    reveal_strlit(">");
    let len = op.symbol().len() as int;
    assert(s.subrange(q, q + len)[0] == s[q + 0]);
    assert(s[q] == op.symbol()[0]);
    if len == 2 {
        assert(s.subrange(q, q + len)[1] == s[q + 1]);
        assert(s[q + 1] == op.symbol()[1]);
    }
    match op {
        ComparisonOperator::Lesser => {
            assert(s[q] == '<');
            assert(q + 1 < s.len() ==> s[q + 1] == ' ');
        },
        ComparisonOperator::LesserOrEqual => {
            assert(s[q] == '<' && s[q + 1] == '=');
        },
        ComparisonOperator::Equal => {
            assert(s[q] == '=' && s[q + 1] == '=');
        },
        ComparisonOperator::GreaterOrEqual => {
            assert(s[q] == '>' && s[q + 1] == '=');
        },
        ComparisonOperator::Greater => {
            assert(s[q] == '>');
            assert(q + 1 < s.len() ==> s[q + 1] == ' ');
        },
    }
}

/// The two-operand half of the round trip.
#[verifier::rlimit(100)]
#[verifier::spinoff_prover]
proof fn lemma_round_trip_two(t1: Seq<char>, op12: ComparisonOperator, t2: Seq<char>)
    requires
        atom_text(t1),
        atom_text(t2),
    ensures
        spec_parse(chain_text(t1, op12, t2, None)) == Ok::<AceView, ParseError>(
            AceView {
                first: atom_operand(t1),
                comp_first_to_second: op12,
                second: atom_operand(t2),
                tail: None,
            },
        ),
{
    reveal_strlit(" ");
    let s = chain_text(t1, op12, t2, None);
    let n1 = t1.len() as int;
    let l12 = op12.symbol().len() as int;
    let q1 = n1 + 1;
    let a2 = q1 + l12 + 1;
    let e2 = a2 + t2.len();
    lemma_symbol_shape(op12);
    lemma_atom_start(t1);
    lemma_atom_start(t2);
    assert(s.len() == e2);
    assert(s.subrange(0, n1) =~= t1);
    assert(s[n1] == ' ');
    assert(s.subrange(q1, q1 + l12) =~= op12.symbol());
    assert(s[q1 + l12] == ' ');
    assert(s.subrange(a2, e2) =~= t2);
    lemma_ws_end_stops(s, 0, 0);
    lemma_operand_at_atom(s, 0, t1);
    lemma_ws_end_stops(s, n1, q1);
    lemma_operator_at_symbol(s, q1, op12);
    lemma_ws_end_stops(s, q1 + l12, a2);
    lemma_operand_at_atom(s, a2, t2);
    lemma_ws_end_stops(s, e2, e2);
}

/// Where each piece of a three-operand chain text stands.
#[verifier::rlimit(100)]
#[verifier::spinoff_prover]
proof fn lemma_chain_three_layout(
    t1: Seq<char>,
    op12: ComparisonOperator,
    t2: Seq<char>,
    op23: ComparisonOperator,
    t3: Seq<char>,
)
    ensures
        ({
            let s = chain_text(t1, op12, t2, Some((op23, t3)));
            let n1 = t1.len() as int;
            let l12 = op12.symbol().len() as int;
            let q1 = n1 + 1;
            let a2 = q1 + l12 + 1;
            let e2 = a2 + t2.len();
            let l23 = op23.symbol().len() as int;
            let q2 = e2 + 1;
            let a3 = q2 + l23 + 1;
            let e3 = a3 + t3.len();
            &&& s.len() == e3
            &&& s.subrange(0, n1) == t1
            &&& s[n1] == ' '
            &&& s.subrange(q1, q1 + l12) == op12.symbol()
            &&& s[q1 + l12] == ' '
            &&& s.subrange(a2, e2) == t2
            &&& s[e2] == ' '
            &&& s.subrange(q2, q2 + l23) == op23.symbol()
            &&& s[q2 + l23] == ' '
            &&& s.subrange(a3, e3) == t3
        }),
{
    reveal_strlit(" ");
    let s = chain_text(t1, op12, t2, Some((op23, t3)));
    let n1 = t1.len() as int;
    let l12 = op12.symbol().len() as int;
    let q1 = n1 + 1;
    let a2 = q1 + l12 + 1;
    let e2 = a2 + t2.len();
    let l23 = op23.symbol().len() as int;
    let q2 = e2 + 1;
    let a3 = q2 + l23 + 1;
    let e3 = a3 + t3.len();
    assert(s.subrange(0, n1) =~= t1);
    assert(s.subrange(q1, q1 + l12) =~= op12.symbol());
    assert(s.subrange(a2, e2) =~= t2);
    assert(s.subrange(q2, q2 + l23) =~= op23.symbol());
    assert(s.subrange(a3, e3) =~= t3);
}

/// Assembling a three-operand parse from the outcomes at each position.
proof fn lemma_parse_from_pieces(
    s: Seq<char>,
    o1: OperandView,
    op12: ComparisonOperator,
    o2: OperandView,
    op23: ComparisonOperator,
    o3: OperandView,
    n1: int,
    q1: int,
    a2: int,
    e2: int,
    q2: int,
    a3: int,
    e3: int,
)
    requires
        ws_end(s, 0) == 0,
        spec_operand_at(s, 0) == Ok::<(OperandView, int), ParseError>((o1, n1)),
        ws_end(s, n1) == q1,
        spec_operator_at(s, q1) == Some((op12, a2 - 1)),
        ws_end(s, a2 - 1) == a2,
        spec_operand_at(s, a2) == Ok::<(OperandView, int), ParseError>((o2, e2)),
        ws_end(s, e2) == q2,
        spec_operator_at(s, q2) == Some((op23, a3 - 1)),
        ws_end(s, a3 - 1) == a3,
        spec_operand_at(s, a3) == Ok::<(OperandView, int), ParseError>((o3, e3)),
        ws_end(s, e3) == s.len(),
    ensures
        spec_parse(s) == Ok::<AceView, ParseError>(
            AceView { first: o1, comp_first_to_second: op12, second: o2, tail: Some((op23, o3)) },
        ),
{
}

/// The three-operand round trip over a text whose layout is already known:
/// `s` holds the three atoms and the two operator symbols at the given
/// positions, separated by single spaces.
#[verifier::rlimit(100)]
#[verifier::spinoff_prover]
proof fn lemma_round_trip_three_inner(
    s: Seq<char>,
    t1: Seq<char>,
    op12: ComparisonOperator,
    t2: Seq<char>,
    op23: ComparisonOperator,
    t3: Seq<char>,
)
    requires
        atom_text(t1),
        atom_text(t2),
        atom_text(t3),
        ({
            let n1 = t1.len() as int;
            let l12 = op12.symbol().len() as int;
            let q1 = n1 + 1;
            let a2 = q1 + l12 + 1;
            let e2 = a2 + t2.len();
            let l23 = op23.symbol().len() as int;
            let q2 = e2 + 1;
            let a3 = q2 + l23 + 1;
            let e3 = a3 + t3.len();
            &&& s.len() == e3
            &&& s.subrange(0, n1) == t1
            &&& s[n1] == ' '
            &&& s.subrange(q1, q1 + l12) == op12.symbol()
            &&& s[q1 + l12] == ' '
            &&& s.subrange(a2, e2) == t2
            &&& s[e2] == ' '
            &&& s.subrange(q2, q2 + l23) == op23.symbol()
            &&& s[q2 + l23] == ' '
            &&& s.subrange(a3, e3) == t3
        }),
    ensures
        spec_parse(s) == Ok::<AceView, ParseError>(
            AceView {
                first: atom_operand(t1),
                comp_first_to_second: op12,
                second: atom_operand(t2),
                tail: Some((op23, atom_operand(t3))),
            },
        ),
{
    let n1 = t1.len() as int;
    let l12 = op12.symbol().len() as int;
    let q1 = n1 + 1;
    let a2 = q1 + l12 + 1;
    let e2 = a2 + t2.len();
    let l23 = op23.symbol().len() as int;
    let q2 = e2 + 1;
    let a3 = q2 + l23 + 1;
    let e3 = a3 + t3.len();
    lemma_symbol_shape(op12);
    lemma_symbol_shape(op23);
    lemma_atom_start(t1);
    lemma_atom_start(t2);
    lemma_atom_start(t3);
    assert(s[q1] == op12.symbol()[0]) by {
        assert(s.subrange(q1, q1 + l12)[0] == s[q1 + 0]);
    }
    assert(s[q2] == op23.symbol()[0]) by {
        assert(s.subrange(q2, q2 + l23)[0] == s[q2 + 0]);
    }
    assert(s[a2] == t2[0]) by {
        assert(s.subrange(a2, e2)[0] == s[a2 + 0]);
    }
    assert(s[a3] == t3[0]) by {
        assert(s.subrange(a3, e3)[0] == s[a3 + 0]);
    }
    lemma_ws_end_stops(s, 0, 0);
    lemma_operand_at_atom(s, 0, t1);
    assert(spec_operand_at(s, 0) == Ok::<(OperandView, int), ParseError>((atom_operand(t1), n1)));
    lemma_ws_end_stops(s, n1, q1);
    lemma_operator_at_symbol(s, q1, op12);
    lemma_ws_end_stops(s, q1 + l12, a2);
    lemma_operand_at_atom(s, a2, t2);
    assert(spec_operand_at(s, a2) == Ok::<(OperandView, int), ParseError>((atom_operand(t2), e2)));
    lemma_ws_end_stops(s, e2, q2);
    lemma_operator_at_symbol(s, q2, op23);
    lemma_ws_end_stops(s, q2 + l23, a3);
    lemma_operand_at_atom(s, a3, t3);
    assert(spec_operand_at(s, a3) == Ok::<(OperandView, int), ParseError>((atom_operand(t3), e3)));
    lemma_ws_end_stops(s, e3, e3);
    lemma_parse_from_pieces(
        s,
        atom_operand(t1),
        op12,
        atom_operand(t2),
        op23,
        atom_operand(t3),
        n1,
        q1,
        a2,
        e2,
        q2,
        a3,
        e3,
    );
}

/// The three-operand half of the round trip.
proof fn lemma_round_trip_three(
    t1: Seq<char>,
    op12: ComparisonOperator,
    t2: Seq<char>,
    op23: ComparisonOperator,
    t3: Seq<char>,
)
    requires
        atom_text(t1),
        atom_text(t2),
        atom_text(t3),
    ensures
        spec_parse(chain_text(t1, op12, t2, Some((op23, t3)))) == Ok::<AceView, ParseError>(
            AceView {
                first: atom_operand(t1),
                comp_first_to_second: op12,
                second: atom_operand(t2),
                tail: Some((op23, atom_operand(t3))),
            },
        ),
{
    lemma_chain_three_layout(t1, op12, t2, op23, t3);
    lemma_round_trip_three_inner(
        chain_text(t1, op12, t2, Some((op23, t3))),
        t1,
        op12,
        t2,
        op23,
        t3,
    );
}

/// Round trip: parsing the canonical rendered chain of atoms - as a failure
/// message reads once the backticks, the ` is false` suffix and the
/// display-name annotations are stripped - yields the expression it came
/// from: the same operator sequence, the same operand arity, and for each
/// atom the operand it denotes.
pub proof fn lemma_round_trip(
    t1: Seq<char>,
    op12: ComparisonOperator,
    t2: Seq<char>,
    tail: Option<(ComparisonOperator, Seq<char>)>,
)
    requires
        atom_text(t1),
        atom_text(t2),
        tail matches Some(pair) ==> atom_text(pair.1),
    ensures
        spec_parse(chain_text(t1, op12, t2, tail)) == Ok::<AceView, ParseError>(
            AceView {
                first: atom_operand(t1),
                comp_first_to_second: op12,
                second: atom_operand(t2),
                tail: match tail {
                    Some((op23, t3)) => Some((op23, atom_operand(t3))),
                    None => None,
                },
            },
        ),
{
    match tail {
        None => lemma_round_trip_two(t1, op12, t2),
        Some((op23, t3)) => lemma_round_trip_three(t1, op12, t2, op23, t3),
    }
}

} // verus!
