use vstd::prelude::*;
use vstd::string::StringExecFns;
use crate::scan::digits_text;
use crate::scan::identifier_text;

verus! {

/// A well-formed path segment: an identifier or a non-negative integer index.
pub open spec fn segment_wf(t: Seq<char>) -> bool {
    identifier_text(t) || digits_text(t)
}

/// A well-formed display path: a non-empty sequence of well-formed segments.
pub open spec fn path_wf(path: Seq<Seq<char>>) -> bool {
    path.len() > 0 && forall|x: int| 0 <= x < path.len() ==> segment_wf(path[x])
}

/// An ordered, non-empty sequence of path segments (identifiers or
/// non-negative integer indices), rendered by joining with `.`. It represents
/// dotted or indexed access (`a.b.2`) purely for display: it never affects the
/// compared values.
#[derive(Debug, Clone)]
pub struct DisplayPath {
    pub segments: Vec<String>,
}

impl View for DisplayPath {
    type V = Seq<Seq<char>>;

    open spec fn view(&self) -> Seq<Seq<char>> {
        self.segments@.map_values(|s: String| s@)
    }
}

/// The text of a path: its segments joined with `.`.
pub open spec fn joined(segments: Seq<Seq<char>>) -> Seq<char>
    decreases segments.len(),
{
    if segments.len() == 0 {
        Seq::empty()
    } else if segments.len() == 1 {
        segments[0]
    } else {
        segments[0] + "."@ + joined(segments.drop_first())
    }
}

/// Appending one more segment extends the joined text by a `.` and that
/// segment (by the segment alone when the path was empty).
pub proof fn lemma_joined_push(segments: Seq<Seq<char>>, segment: Seq<char>)
    ensures
        segments.len() == 0 ==> joined(segments.push(segment)) == segment,
        segments.len() > 0 ==> joined(segments.push(segment)) == joined(segments) + "."@ + segment,
    decreases segments.len(),
{
    if segments.len() == 0 {
        assert(segments.push(segment)[0] == segment);
    } else if segments.len() == 1 {
        assert(segments.push(segment).drop_first() =~= seq![segment]);
        assert(joined(seq![segment]) == segment);
        assert(segments.push(segment)[0] == segments[0]);
    } else {
        lemma_joined_push(segments.drop_first(), segment);
        assert(segments.push(segment).drop_first() =~= segments.drop_first().push(segment));
        assert(joined(segments) + "."@ + segment =~= segments[0] + "."@ + (joined(
            segments.drop_first(),
        ) + "."@ + segment));
    }
}

impl DisplayPath {
    /// Renders the path: its segments joined with `.`.
    pub fn render(&self) -> (r: String)
        ensures
            r@ == joined(self@),
    {
        let mut out = String::new();
        let mut k: usize = 0;
        while k < self.segments.len()
            invariant
                k <= self.segments.len(),
                out@ == joined(self@.take(k as int)),
            decreases self.segments.len() - k,
        {
            if k > 0 {
                out.append(".");
            }
            out.append(self.segments[k].as_str());
            proof {
                lemma_joined_push(self@.take(k as int), self@[k as int]);
                assert(self@.take(k as int).push(self@[k as int]) =~= self@.take(k + 1));
            }
            k = k + 1;
        }
        proof {
            assert(self@.take(self.segments.len() as int) =~= self@);
        }
        out
    }
}

/// One operand as the parser saw it: either a numeric literal carried as raw
/// text (for an adapter to re-embed), or a reference to a value by path, with
/// the `raw` modifier and an optional `as` alias.
#[derive(Debug, Clone)]
pub enum OperandSyntax {
    Literal { text: String },
    PathRef { raw: bool, path: DisplayPath, alias: Option<DisplayPath> },
}

/// The view of an `OperandSyntax`, over character sequences.
pub enum OperandView {
    Literal { text: Seq<char> },
    PathRef { raw: bool, path: Seq<Seq<char>>, alias: Option<Seq<Seq<char>>> },
}

impl View for OperandSyntax {
    type V = OperandView;

    open spec fn view(&self) -> OperandView {
        match self {
            OperandSyntax::Literal { text } => OperandView::Literal { text: text@ },
            OperandSyntax::PathRef { raw, path, alias } => OperandView::PathRef {
                raw: *raw,
                path: path@,
                alias: match alias {
                    Some(a) => Some(a@),
                    None => None,
                },
            },
        }
    }
}

impl OperandView {
    /// A well-formed operand: its paths, where it has them, are non-empty
    /// sequences of well-formed segments.
    pub open spec fn wf(self) -> bool {
        match self {
            OperandView::Literal { .. } => true,
            OperandView::PathRef { raw, path, alias } => path_wf(path) && match alias {
                Some(a) => path_wf(a),
                None => true,
            },
        }
    }

    /// The display name an operand contributes to a failure message: none for
    /// a literal, none when `raw` suppresses rendering (even when an `as`
    /// alias was parsed), otherwise the alias when one was given and the
    /// source path itself when not.
    pub open spec fn display_name_view(self) -> Option<Seq<char>> {
        match self {
            OperandView::Literal { .. } => None,
            OperandView::PathRef { raw, path, alias } => if raw {
                None
            } else {
                match alias {
                    Some(a) => Some(joined(a)),
                    None => Some(joined(path)),
                }
            },
        }
    }
}

impl OperandSyntax {
    /// Resolves the display name of the operand: `None` for a literal or when
    /// `raw` was given (an `as` alias after `raw` is parsed but discarded),
    /// otherwise the alias path when present and the source path itself when
    /// not, joined with `.`.
    pub fn display_name(&self) -> (r: Option<String>)
        ensures
            match r {
                Some(name) => self@.display_name_view() == Some(name@),
                None => self@.display_name_view() is None,
            },
    {
        match self {
            OperandSyntax::Literal { .. } => None,
            OperandSyntax::PathRef { raw, path, alias } => {
                if *raw {
                    None
                } else {
                    match alias {
                        Some(a) => Some(a.render()),
                        None => Some(path.render()),
                    }
                }
            },
        }
    }
}

/// The abstract comparison expression the parser produces: two or three
/// operands joined by one or two relational operators. When only two operands
/// were written, `tail` is absent; when three were, it carries the second
/// operator and the third operand.
#[derive(Debug, Clone)]
pub struct Ace {
    pub first: OperandSyntax,
    pub comp_first_to_second: crate::operator::ComparisonOperator,
    pub second: OperandSyntax,
    pub tail: Option<(crate::operator::ComparisonOperator, OperandSyntax)>,
}

/// The view of an `Ace`, over operand views.
pub struct AceView {
    pub first: OperandView,
    pub comp_first_to_second: crate::operator::ComparisonOperator,
    pub second: OperandView,
    pub tail: Option<(crate::operator::ComparisonOperator, OperandView)>,
}

impl AceView {
    /// A well-formed expression: every operand is well formed.
    pub open spec fn wf(self) -> bool {
        self.first.wf() && self.second.wf() && match self.tail {
            Some((_, third)) => third.wf(),
            None => true,
        }
    }
}

impl View for Ace {
    type V = AceView;

    open spec fn view(&self) -> AceView {
        AceView {
            first: self.first@,
            comp_first_to_second: self.comp_first_to_second,
            second: self.second@,
            tail: match &self.tail {
                Some((op, third)) => Some((*op, third@)),
                None => None,
            },
        }
    }
}

} // verus!
