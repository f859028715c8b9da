use vstd::prelude::*;
use vstd::string::StringExecFns;
use crate::ace::Ace;
use crate::ace::AceView;
use crate::ace::DisplayPath;
use crate::ace::OperandSyntax;
use crate::ace::OperandView;
use crate::ace::path_wf;
use crate::ace::segment_wf;
use crate::operator::ComparisonOperator;
use crate::scan::digits_end;
use crate::scan::ident_end;
use crate::scan::is_digit;
use crate::scan::is_digit_char;
use crate::scan::is_ident_start;
use crate::scan::is_ident_start_char;
use crate::scan::is_ident_char;
use crate::scan::lemma_scan_end_bounds;
use crate::scan::lemma_scan_end_run;
use crate::scan::lemma_ws_end_bounds;
use crate::scan::number_end;
use crate::scan::scan_digits;
use crate::scan::scan_ident_chars;
use crate::scan::scan_number;
use crate::scan::skip_spaces;
use crate::scan::ws_end;

verus! {

/// Why a parse failed. The expression text never recovers from its first
/// unrecoverable mismatch: the parse aborts there.
#[derive(Debug, Clone, Copy, PartialEq, Eq, Structural)]
pub enum ParseError {
    /// An operand (a literal or a path) was expected and the text holds
    /// something else, or nothing.
    ExpectedOperand,
    /// After the first operand, no relational operator could be identified.
    ExpectedOperator,
    /// A path broke off: a segment was expected after a `.` or after `as`
    /// and the text holds something else, or nothing.
    MalformedPath,
    /// A complete expression was parsed but text remains behind it.
    TrailingInput,
}

impl ParseError {
    /// The diagnostic text of the error, for an adapter to surface.
    pub fn message(&self) -> (r: &'static str)
        ensures
            self is ExpectedOperand ==> r@ == "expected a literal or a value reference"@,
            self is ExpectedOperator ==> r@
                == "no comparison operator could be identified, expected one of `<, <=, ==, >=, >`"@,
            self is MalformedPath ==> r@ == "expected a path segment"@,
            self is TrailingInput ==> r@ == "unexpected tokens behind the comparison"@,
    {
        match self {
            ParseError::ExpectedOperand => "expected a literal or a value reference",
            ParseError::ExpectedOperator => "no comparison operator could be identified, expected one of `<, <=, ==, >=, >`",
            ParseError::MalformedPath => "expected a path segment",
            ParseError::TrailingInput => "unexpected tokens behind the comparison",
        }
    }
}

/// The keyword that suppresses display-name rendering for one operand.
pub open spec fn raw_keyword() -> Seq<char> {
    "raw"@
}

/// The keyword that introduces a display alias for one operand.
pub open spec fn as_keyword() -> Seq<char> {
    "as"@
}

/// The relational operator starting at `i`, with the position behind it.
/// Two-character operators are recognized before their one-character
/// prefixes, so `<=` is never read as `<` followed by a dangling `=`.
pub open spec fn spec_operator_at(s: Seq<char>, i: int) -> Option<(ComparisonOperator, int)> {
    if 0 <= i && i + 1 < s.len() && s[i] == '<' && s[i + 1] == '=' {
        Some((ComparisonOperator::LesserOrEqual, i + 2))
    } else if 0 <= i && i + 1 < s.len() && s[i] == '>' && s[i + 1] == '=' {
        Some((ComparisonOperator::GreaterOrEqual, i + 2))
    } else if 0 <= i && i + 1 < s.len() && s[i] == '=' && s[i + 1] == '=' {
        Some((ComparisonOperator::Equal, i + 2))
    } else if 0 <= i < s.len() && s[i] == '<' {
        Some((ComparisonOperator::Lesser, i + 1))
    } else if 0 <= i < s.len() && s[i] == '>' {
        Some((ComparisonOperator::Greater, i + 1))
    } else {
        None
    }
}

/// One path segment at `i`: an identifier or a run of digits, with the
/// position behind it.
pub open spec fn spec_segment_at(s: Seq<char>, i: int) -> Option<(Seq<char>, int)> {
    if 0 <= i < s.len() && is_ident_start_char(s[i]) {
        Some((s.subrange(i, ident_end(s, i)), ident_end(s, i)))
    } else if 0 <= i < s.len() && is_digit_char(s[i]) {
        Some((s.subrange(i, digits_end(s, i)), digits_end(s, i)))
    } else {
        None
    }
}

/// A dotted path starting at the segment position `i`: segments separated by
/// `.` (whitespace around the dots is allowed), with the position behind the
/// last segment.
pub open spec fn spec_path_at(s: Seq<char>, i: int) -> Result<(Seq<Seq<char>>, int), ParseError>
    decreases s.len() - i,
{
    match spec_segment_at(s, i) {
        None => Err(ParseError::MalformedPath),
        Some((segment, e)) => {
            let j = ws_end(s, e);
            if j < s.len() && s[j] == '.' {
                let p = ws_end(s, j + 1);
                proof {
                    lemma_segment_progress(s, i);
                    lemma_ws_end_bounds(s, e);
                    lemma_ws_end_bounds(s, j + 1);
                }
                match spec_path_at(s, p) {
                    Ok((rest, m)) => Ok((seq![segment] + rest, m)),
                    Err(err) => Err(err),
                }
            } else {
                Ok((seq![segment], e))
            }
        },
    }
}

/// A segment consumes at least one character and stays inside the text.
pub proof fn lemma_segment_progress(s: Seq<char>, i: int)
    requires
        spec_segment_at(s, i) is Some,
    ensures
        i + 1 <= spec_segment_at(s, i)->Some_0.1 <= s.len(),
{
    if 0 <= i < s.len() && is_ident_start_char(s[i]) {
        lemma_scan_end_bounds(s, i + 1, |c: char| crate::scan::is_ident_char(c));
    } else {
        lemma_scan_end_bounds(s, i + 1, |c: char| is_digit_char(c));
    }
}

/// The optional `as` alias behind a path, and the finished path operand: when
/// the next word is exactly `as`, an alias path follows; otherwise the
/// operand ends at `k`.
pub open spec fn spec_after_path(s: Seq<char>, raw: bool, path: Seq<Seq<char>>, k: int) -> Result<
    (OperandView, int),
    ParseError,
> {
    let j = ws_end(s, k);
    if j < s.len() && is_ident_start_char(s[j]) && s.subrange(j, ident_end(s, j)) == as_keyword() {
        let p = ws_end(s, ident_end(s, j));
        match spec_path_at(s, p) {
            Ok((alias, m)) => Ok((OperandView::PathRef { raw, path, alias: Some(alias) }, m)),
            Err(err) => Err(err),
        }
    } else {
        Ok((OperandView::PathRef { raw, path, alias: None }, k))
    }
}

/// The operand starting at `i` (whitespace already skipped): a numeric
/// literal, possibly signed, carried as raw text; or a path reference with
/// its `raw` and `as` modifiers. A leading `raw` counts as the modifier only
/// when a word other than `as` follows it; otherwise it is itself the path.
pub open spec fn spec_operand_at(s: Seq<char>, i: int) -> Result<(OperandView, int), ParseError> {
    if !(0 <= i < s.len()) {
        Err(ParseError::ExpectedOperand)
    } else if is_digit_char(s[i]) {
        Ok((OperandView::Literal { text: s.subrange(i, number_end(s, i)) }, number_end(s, i)))
    } else if s[i] == '-' {
        let j = ws_end(s, i + 1);
        if j < s.len() && is_digit_char(s[j]) {
            Ok(
                (
                    OperandView::Literal { text: "-"@ + s.subrange(j, number_end(s, j)) },
                    number_end(s, j),
                ),
            )
        } else {
            Err(ParseError::ExpectedOperand)
        }
    } else if is_ident_start_char(s[i]) {
        let e1 = ident_end(s, i);
        let first = s.subrange(i, e1);
        let j = ws_end(s, e1);
        if j < s.len() && s[j] == '.' {
            let p = ws_end(s, j + 1);
            match spec_path_at(s, p) {
                Ok((rest, m)) => spec_after_path(s, false, seq![first] + rest, m),
                Err(err) => Err(err),
            }
        } else if first == raw_keyword() && j < s.len() && is_ident_start_char(s[j]) && s.subrange(
            j,
            ident_end(s, j),
        ) != as_keyword() {
            match spec_path_at(s, j) {
                Ok((path, m)) => spec_after_path(s, true, path, m),
                Err(err) => Err(err),
            }
        } else {
            spec_after_path(s, false, seq![first], e1)
        }
    } else {
        Err(ParseError::ExpectedOperand)
    }
}

/// The whole expression: two operands joined by an operator, an optional
/// third operand behind a second operator, and nothing else. When no
/// operator follows the second operand, the expression ends there (the
/// two-operand form); remaining text is then an error.
pub open spec fn spec_parse(s: Seq<char>) -> Result<AceView, ParseError> {
    match spec_operand_at(s, ws_end(s, 0)) {
        Err(err) => Err(err),
        Ok((first, i1)) => match spec_operator_at(s, ws_end(s, i1)) {
            None => Err(ParseError::ExpectedOperator),
            Some((op12, i2)) => match spec_operand_at(s, ws_end(s, i2)) {
                Err(err) => Err(err),
                Ok((second, i3)) => {
                    let i4 = ws_end(s, i3);
                    match spec_operator_at(s, i4) {
                        None => if i4 == s.len() {
                            Ok(AceView { first, comp_first_to_second: op12, second, tail: None })
                        } else {
                            Err(ParseError::TrailingInput)
                        },
                        Some((op23, i5)) => match spec_operand_at(s, ws_end(s, i5)) {
                            Err(err) => Err(err),
                            Ok((third, i6)) => {
                                if ws_end(s, i6) == s.len() {
                                    Ok(
                                        AceView {
                                            first,
                                            comp_first_to_second: op12,
                                            second,
                                            tail: Some((op23, third)),
                                        },
                                    )
                                } else {
                                    Err(ParseError::TrailingInput)
                                }
                            },
                        },
                    }
                },
            },
        },
    }
}


/// Every segment the parser reads is an identifier or an integer index.
proof fn lemma_segment_at_wf(s: Seq<char>, i: int)
    requires
        spec_segment_at(s, i) is Some,
    ensures
        segment_wf(spec_segment_at(s, i)->Some_0.0),
{
    lemma_segment_progress(s, i);
    if 0 <= i < s.len() && is_ident_start_char(s[i]) {
        let e = ident_end(s, i);
        lemma_scan_end_run(s, i, |c: char| is_ident_char(c));
        let t = s.subrange(i, e);
        assert(forall|m: int| 0 <= m < t.len() ==> t[m] == s[i + m]);
        assert(crate::scan::identifier_text(t));
    } else {
        let e = digits_end(s, i);
        lemma_scan_end_run(s, i, |c: char| is_digit_char(c));
        let t = s.subrange(i, e);
        assert(forall|m: int| 0 <= m < t.len() ==> t[m] == s[i + m]);
        assert(crate::scan::digits_text(t));
    }
}

/// Every path the parser reads is non-empty and made of well-formed segments.
proof fn lemma_path_at_wf(s: Seq<char>, i: int)
    requires
        spec_path_at(s, i) is Ok,
    ensures
        path_wf(spec_path_at(s, i)->Ok_0.0),
    decreases s.len() - i,
{
    let (segment, e) = spec_segment_at(s, i)->Some_0;
    lemma_segment_at_wf(s, i);
    lemma_segment_progress(s, i);
    let j = ws_end(s, e);
    lemma_ws_end_bounds(s, e);
    if j < s.len() && s[j] == '.' {
        let p = ws_end(s, j + 1);
        lemma_ws_end_bounds(s, j + 1);
        lemma_path_at_wf(s, p);
        let rest = spec_path_at(s, p)->Ok_0.0;
        assert(forall|x: int|
            0 < x < (seq![segment] + rest).len() ==> (seq![segment] + rest)[x] == rest[x - 1]);
    }
}

/// Every operand the parser reads is well formed.
proof fn lemma_operand_at_wf(s: Seq<char>, i: int)
    requires
        spec_operand_at(s, i) is Ok,
    ensures
        spec_operand_at(s, i)->Ok_0.0.wf(),
{
    if 0 <= i < s.len() && !is_digit_char(s[i]) && s[i] != '-' && is_ident_start_char(s[i]) {
        let e1 = ident_end(s, i);
        let first = s.subrange(i, e1);
        lemma_segment_at_wf(s, i);
        let j = ws_end(s, e1);
        if j < s.len() && s[j] == '.' {
            let p = ws_end(s, j + 1);
            if spec_path_at(s, p) is Ok {
                lemma_path_at_wf(s, p);
                let rest = spec_path_at(s, p)->Ok_0.0;
                let path = seq![first] + rest;
                assert(forall|x: int| 0 < x < path.len() ==> path[x] == rest[x - 1]);
                lemma_after_path_wf(s, false, path, spec_path_at(s, p)->Ok_0.1);
            }
        } else if first == raw_keyword() && j < s.len() && is_ident_start_char(s[j]) && s.subrange(
            j,
            ident_end(s, j),
        ) != as_keyword() {
            if spec_path_at(s, j) is Ok {
                lemma_path_at_wf(s, j);
                lemma_after_path_wf(s, true, spec_path_at(s, j)->Ok_0.0, spec_path_at(s, j)->Ok_0.1);
            }
        } else {
            lemma_after_path_wf(s, false, seq![first], e1);
        }
    }
}

/// Finishing an operand keeps its path well formed, and an alias it reads is
/// well formed too.
proof fn lemma_after_path_wf(s: Seq<char>, raw: bool, path: Seq<Seq<char>>, k: int)
    requires
        path_wf(path),
        spec_after_path(s, raw, path, k) is Ok,
    ensures
        spec_after_path(s, raw, path, k)->Ok_0.0.wf(),
{
    let j = ws_end(s, k);
    if j < s.len() && is_ident_start_char(s[j]) && s.subrange(j, ident_end(s, j)) == as_keyword() {
        let p = ws_end(s, ident_end(s, j));
        if spec_path_at(s, p) is Ok {
            lemma_path_at_wf(s, p);
        }
    }
}

/// Everything the parser accepts is well formed: a parsed expression carries
/// non-empty paths of identifier or integer segments, in operands and aliases
/// alike.
pub proof fn lemma_parse_wf(s: Seq<char>)
    requires
        spec_parse(s) is Ok,
    ensures
        spec_parse(s)->Ok_0.wf(),
{
    lemma_operand_at_wf(s, ws_end(s, 0));
    let i1 = spec_operand_at(s, ws_end(s, 0))->Ok_0.1;
    let i2 = spec_operator_at(s, ws_end(s, i1))->Some_0.1;
    lemma_operand_at_wf(s, ws_end(s, i2));
    let i3 = spec_operand_at(s, ws_end(s, i2))->Ok_0.1;
    let i4 = ws_end(s, i3);
    if spec_operator_at(s, i4) is Some {
        let i5 = spec_operator_at(s, i4)->Some_0.1;
        lemma_operand_at_wf(s, ws_end(s, i5));
    }
}

/// Reads the relational operator starting at `i`, trying the two-character
/// operators before their one-character prefixes.
pub fn parse_operator(s: &str, i: usize) -> (r: Option<(ComparisonOperator, usize)>)
    requires
        i <= s@.len(),
    ensures
        match r {
            Some((op, j)) => spec_operator_at(s@, i as int) == Some((op, j as int)) && i < j
                <= s@.len(),
            None => spec_operator_at(s@, i as int) is None,
        },
{
    let n = s.unicode_len();
    if i < n && i + 1 < n && s.get_char(i) == '<' && s.get_char(i + 1) == '=' {
        Some((ComparisonOperator::LesserOrEqual, i + 2))
    } else if i < n && i + 1 < n && s.get_char(i) == '>' && s.get_char(i + 1) == '=' {
        Some((ComparisonOperator::GreaterOrEqual, i + 2))
    } else if i < n && i + 1 < n && s.get_char(i) == '=' && s.get_char(i + 1) == '=' {
        Some((ComparisonOperator::Equal, i + 2))
    } else if i < n && s.get_char(i) == '<' {
        Some((ComparisonOperator::Lesser, i + 1))
    } else if i < n && s.get_char(i) == '>' {
        Some((ComparisonOperator::Greater, i + 1))
    } else {
        None
    }
}

/// Reads one path segment at `i`.
fn parse_segment(s: &str, i: usize) -> (r: Option<(String, usize)>)
    requires
        i <= s@.len(),
    ensures
        match r {
            Some((t, e)) => spec_segment_at(s@, i as int) matches Some(pair) && pair.0 == t@
                && pair.1 == e as int && i < e <= s@.len(),
            None => spec_segment_at(s@, i as int) is None,
        },
{
    let n = s.unicode_len();
    if i < n && is_ident_start(s.get_char(i)) {
        let e = scan_ident_chars(s, i);
        proof {
            lemma_segment_progress(s@, i as int);
        }
        Some((String::from_str(s.substring_char(i, e)), e))
    } else if i < n && is_digit(s.get_char(i)) {
        let e = scan_digits(s, i);
        proof {
            lemma_segment_progress(s@, i as int);
        }
        Some((String::from_str(s.substring_char(i, e)), e))
    } else {
        None
    }
}

/// Whether the identifier run `[j, e)` is exactly the keyword `as`.
fn ident_is_as(s: &str, j: usize, e: usize) -> (r: bool)
    requires
        j <= e <= s@.len(),
    ensures
        r == (s@.subrange(j as int, e as int) == as_keyword()),
{
    proof {
        reveal_strlit("as");
    }
    if e - j == 2 {
        let r = s.get_char(j) == 'a' && s.get_char(j + 1) == 's';
        proof {
            if r {
                assert(s@.subrange(j as int, e as int) =~= as_keyword());
            } else {
                assert(s@.subrange(j as int, e as int)[0] == s@[j as int]);
                assert(s@.subrange(j as int, e as int)[1] == s@[j + 1]);
            }
        }
        r
    } else {
        proof {
            assert(s@.subrange(j as int, e as int).len() != as_keyword().len());
        }
        false
    }
}

/// Whether the identifier run `[j, e)` is exactly the keyword `raw`.
fn ident_is_raw(s: &str, j: usize, e: usize) -> (r: bool)
    requires
        j <= e <= s@.len(),
    ensures
        r == (s@.subrange(j as int, e as int) == raw_keyword()),
{
    proof {
        reveal_strlit("raw");
    }
    if e - j == 3 {
        let r = s.get_char(j) == 'r' && s.get_char(j + 1) == 'a' && s.get_char(j + 2) == 'w';
        proof {
            if r {
                assert(s@.subrange(j as int, e as int) =~= raw_keyword());
            } else {
                assert(s@.subrange(j as int, e as int)[0] == s@[j as int]);
                assert(s@.subrange(j as int, e as int)[1] == s@[j + 1]);
                assert(s@.subrange(j as int, e as int)[2] == s@[j + 2]);
            }
        }
        r
    } else {
        proof {
            assert(s@.subrange(j as int, e as int).len() != raw_keyword().len());
        }
        false
    }
}

/// Reads a dotted path starting at the segment position `i`.
fn parse_path(s: &str, i: usize) -> (r: Result<(Vec<String>, usize), ParseError>)
    requires
        i <= s@.len(),
    ensures
        match r {
            Ok((segments, m)) => spec_path_at(s@, i as int) matches Ok(pair) && pair.0
                == segments@.map_values(|t: String| t@) && pair.1 == m as int && i <= m
                <= s@.len(),
            Err(e) => spec_path_at(s@, i as int) matches Err(e2) && e2 == e,
        },
    decreases s@.len() - i,
{
    let n = s.unicode_len();
    match parse_segment(s, i) {
        None => Err(ParseError::MalformedPath),
        Some((segment, e)) => {
            let j = skip_spaces(s, e);
            if j < n && s.get_char(j) == '.' {
                let p = skip_spaces(s, j + 1);
                match parse_path(s, p) {
                    Ok((rest, m)) => {
                        let ghost rest_view = rest@;
                        let mut segments: Vec<String> = Vec::new();
                        segments.push(segment);
                        let mut rest = rest;
                        segments.append(&mut rest);
                        proof {
                            assert(segments@.map_values(|t: String| t@) =~= seq![segment@]
                                + rest_view.map_values(|t: String| t@));
                        }
                        Ok((segments, m))
                    },
                    Err(err) => Err(err),
                }
            } else {
                let mut segments: Vec<String> = Vec::new();
                segments.push(segment);
                proof {
                    assert(segments@.map_values(|t: String| t@) =~= seq![segment@]);
                }
                Ok((segments, e))
            }
        },
    }
}

/// Reads the optional `as` alias behind a path and assembles the operand.
fn parse_after_path(s: &str, raw: bool, path: Vec<String>, k: usize) -> (r: Result<
    (OperandSyntax, usize),
    ParseError,
>)
    requires
        k <= s@.len(),
    ensures
        match r {
            Ok((operand, m)) => spec_after_path(
                s@,
                raw,
                path@.map_values(|t: String| t@),
                k as int,
            ) matches Ok(pair) && pair.0 == operand@ && pair.1 == m as int && m <= s@.len(),
            Err(e) => spec_after_path(
                s@,
                raw,
                path@.map_values(|t: String| t@),
                k as int,
            ) matches Err(e2) && e2 == e,
        },
{
    let n = s.unicode_len();
    let j = skip_spaces(s, k);
    if j < n && is_ident_start(s.get_char(j)) {
        let e2 = scan_ident_chars(s, j);
        if ident_is_as(s, j, e2) {
            let p = skip_spaces(s, e2);
            match parse_path(s, p) {
                Ok((alias, m)) => Ok(
                    (
                        OperandSyntax::PathRef {
                            raw,
                            path: DisplayPath { segments: path },
                            alias: Some(DisplayPath { segments: alias }),
                        },
                        m,
                    ),
                ),
                Err(err) => Err(err),
            }
        } else {
            Ok((OperandSyntax::PathRef { raw, path: DisplayPath { segments: path }, alias: None }, k))
        }
    } else {
        Ok((OperandSyntax::PathRef { raw, path: DisplayPath { segments: path }, alias: None }, k))
    }
}

/// Reads the operand starting at `i` (whitespace already skipped).
fn parse_operand(s: &str, i: usize) -> (r: Result<(OperandSyntax, usize), ParseError>)
    requires
        i <= s@.len(),
    ensures
        match r {
            Ok((operand, m)) => spec_operand_at(s@, i as int) matches Ok(pair) && pair.0
                == operand@ && pair.1 == m as int && m <= s@.len(),
            Err(e) => spec_operand_at(s@, i as int) matches Err(e2) && e2 == e,
        },
{
    let n = s.unicode_len();
    if i >= n {
        return Err(ParseError::ExpectedOperand);
    }
    let c = s.get_char(i);
    if is_digit(c) {
        let e = scan_number(s, i);
        Ok((OperandSyntax::Literal { text: String::from_str(s.substring_char(i, e)) }, e))
    } else if c == '-' {
        let j = skip_spaces(s, i + 1);
        if j < n && is_digit(s.get_char(j)) {
            let e = scan_number(s, j);
            let mut text = String::from_str("-");
            text.append(s.substring_char(j, e));
            Ok((OperandSyntax::Literal { text }, e))
        } else {
            Err(ParseError::ExpectedOperand)
        }
    } else if is_ident_start(c) {
        let e1 = scan_ident_chars(s, i);
        let j = skip_spaces(s, e1);
        if j < n && s.get_char(j) == '.' {
            let p = skip_spaces(s, j + 1);
            match parse_path(s, p) {
                Ok((rest, m)) => {
                    let ghost rest_view = rest@;
                    let mut segments: Vec<String> = Vec::new();
                    segments.push(String::from_str(s.substring_char(i, e1)));
                    let mut rest = rest;
                    segments.append(&mut rest);
                    proof {
                        assert(segments@.map_values(|t: String| t@) =~= seq![
                            s@.subrange(i as int, e1 as int),
                        ] + rest_view.map_values(|t: String| t@));
                    }
                    parse_after_path(s, false, segments, m)
                },
                Err(err) => Err(err),
            }
        } else {
            let mut raw_mode = false;
            if j < n && is_ident_start(s.get_char(j)) && ident_is_raw(s, i, e1) {
                let e2 = scan_ident_chars(s, j);
                if !ident_is_as(s, j, e2) {
                    raw_mode = true;
                }
            }
            if raw_mode {
                match parse_path(s, j) {
                    Ok((path, m)) => parse_after_path(s, true, path, m),
                    Err(err) => Err(err),
                }
            } else {
                let mut segments: Vec<String> = Vec::new();
                segments.push(String::from_str(s.substring_char(i, e1)));
                proof {
                    assert(segments@.map_values(|t: String| t@) =~= seq![
                        s@.subrange(i as int, e1 as int),
                    ]);
                }
                parse_after_path(s, false, segments, e1)
            }
        }
    } else {
        Err(ParseError::ExpectedOperand)
    }
}

/// Parses one comparison expression: `operand relop operand`, optionally
/// followed by `relop operand`, and nothing else. Returns the abstract
/// comparison expression, or the error at the first unrecoverable mismatch.
pub fn parse_expression(input: &str) -> (r: Result<Ace, ParseError>)
    ensures
        match r {
            Ok(a) => spec_parse(input@) matches Ok(v) && v == a@ && a@.wf(),
            Err(e) => spec_parse(input@) matches Err(e2) && e2 == e,
        },
{
    let i0 = skip_spaces(input, 0);
    let (first, i1) = match parse_operand(input, i0) {
        Ok(p) => p,
        Err(e) => {
            return Err(e);
        },
    };
    let (op12, i2) = match parse_operator(input, skip_spaces(input, i1)) {
        Some(p) => p,
        None => {
            return Err(ParseError::ExpectedOperator);
        },
    };
    let (second, i3) = match parse_operand(input, skip_spaces(input, i2)) {
        Ok(p) => p,
        Err(e) => {
            return Err(e);
        },
    };
    let i4 = skip_spaces(input, i3);
    match parse_operator(input, i4) {
        None => {
            if i4 == input.unicode_len() {
                proof {
                    lemma_parse_wf(input@);
                }
                Ok(Ace { first, comp_first_to_second: op12, second, tail: None })
            } else {
                Err(ParseError::TrailingInput)
            }
        },
        Some((op23, i5)) => {
            let (third, i6) = match parse_operand(input, skip_spaces(input, i5)) {
                Ok(p) => p,
                Err(e) => {
                    return Err(e);
                },
            };
            if skip_spaces(input, i6) == input.unicode_len() {
                proof {
                    lemma_parse_wf(input@);
                }
                Ok(Ace { first, comp_first_to_second: op12, second, tail: Some((op23, third)) })
            } else {
                Err(ParseError::TrailingInput)
            }
        },
    }
}

} // verus!
