//! Diagnostics of a document: bracket balance, the parser's first error and
//! references without a label, gathered in one list.
use vstd::prelude::*;
use crate::delimiters::{check_unclosed_delimiters, delimiter_diagnostics, DelimiterDiagnostic, DelimiterIssue};
use crate::symbols::{missing_label_error, missing_reference_diagnostics_of, range_of, symbols_of};
use crate::text::{position_from_chars, text_chars, Position, Range};
use crate::tree::{NodeKind, SyntaxTree, TreeNode};

verus! {

#[derive(Clone, Copy, Debug, PartialEq, Eq, Structural)]
pub enum Severity {
    Error,
    Warning,
}

/// A further location and message attached to a diagnostic.
#[derive(Clone, Debug)]
pub struct RelatedInformation {
    pub range: Range,
    pub message: String,
}

/// A problem found in a document.
#[derive(Clone, Debug)]
pub struct Diagnostic {
    pub range: Range,
    pub severity: Severity,
    pub message: String,
    pub related: Vec<RelatedInformation>,
}

/// A diagnostic as plain values.
pub struct DiagnosticView {
    pub range: Range,
    pub severity: Severity,
    pub message: Seq<char>,
    pub related: Seq<(Range, Seq<char>)>,
}

impl View for Diagnostic {
    type V = DiagnosticView;

    open spec fn view(&self) -> DiagnosticView {
        DiagnosticView {
            range: self.range,
            severity: self.severity,
            message: self.message@,
            related: self.related@.map_values(|r: RelatedInformation| (r.range, r.message@)),
        }
    }
}

pub open spec fn diagnostics_view(d: Seq<Diagnostic>) -> Seq<DiagnosticView> {
    d.map_values(|x: Diagnostic| x@)
}


/// Whether `n` is an error node that can be reported: it carries the
/// parser's error and its span lies within the text.
pub open spec fn reportable_error(t: Seq<char>, n: TreeNode) -> bool {
    n.kind == NodeKind::Error && n.error is Some && n.start <= n.end && n.end <= t.len()
}

/// The first reportable error node among `order[k..]`.
pub open spec fn first_error_from(tree: SyntaxTree, t: Seq<char>, order: Seq<usize>, k: int) -> Option<
    usize,
>
    decreases order.len() - k,
{
    if k < 0 || k >= order.len() {
        None
    } else if order[k] < tree.nodes@.len() && reportable_error(t, tree.nodes@[order[k] as int]) {
        Some(order[k])
    } else {
        first_error_from(tree, t, order, k + 1)
    }
}

/// The diagnostic for a reportable error node; each hint of the parser
/// becomes related information at the same range.
pub open spec fn error_diagnostic(t: Seq<char>, n: TreeNode) -> DiagnosticView {
    let r = range_of(t, n.start as int, n.end as int);
    DiagnosticView {
        range: r,
        severity: Severity::Error,
        message: n.error->0.message@,
        related: n.error->0.hints@.map_values(|h: String| (r, h@)),
    }
}

/// The parser's errors are reported one at a time: only the first error
/// below the root, in document order, since later ones often follow from
/// it.
pub open spec fn syntax_error_diagnostics_of(tree: SyntaxTree, t: Seq<char>) -> Seq<DiagnosticView> {
    if tree.nodes@.len() == 0 {
        seq![]
    } else {
        match first_error_from(tree, t, tree.subtrees_from(tree.root(), 0), 0) {
            Some(i) => seq![error_diagnostic(t, tree.nodes@[i as int])],
            None => seq![],
        }
    }
}

/// A delimiter problem as a diagnostic one character wide.
pub open spec fn delimiter_view(d: DelimiterDiagnostic) -> DiagnosticView {
    DiagnosticView {
        range: Range {
            start: Position { line: d.line, character: d.character },
            end: Position {
                line: d.line,
                character: if d.character < usize::MAX {
                    (d.character + 1) as usize
                } else {
                    d.character
                },
            },
        },
        severity: Severity::Error,
        message: if d.issue == DelimiterIssue::Unclosed {
            "unclosed delimiter"@
        } else {
            "unmatched closing delimiter"@
        },
        related: seq![],
    }
}

/// All diagnostics of a document: bracket balance, then the parser's
/// first error, then references without a label.
pub open spec fn document_diagnostics_of(tree: SyntaxTree, t: Seq<char>) -> Seq<DiagnosticView> {
    delimiter_diagnostics(t).map_values(|d: DelimiterDiagnostic| delimiter_view(d))
        + syntax_error_diagnostics_of(tree, t) + missing_reference_diagnostics_of(symbols_of(tree, t))
}

fn error_diagnostic_exec(t: &Vec<char>, n: &TreeNode) -> (r: Diagnostic)
    requires
        reportable_error(t@, *n),
    ensures
        r@ == error_diagnostic(t@, *n),
{
    let start = match position_from_chars(t, n.start) {
        Some(p) => p,
        None => Position { line: 0, character: 0 },
    };
    let end = match position_from_chars(t, n.end) {
        Some(p) => p,
        None => Position { line: 0, character: 0 },
    };
    let range = Range { start, end };
    let err = match &n.error {
        Some(e) => e,
        None => {
            return Diagnostic {
                range,
                severity: Severity::Error,
                message: String::new(),
                related: Vec::new(),
            };
        },
    };
    let mut related: Vec<RelatedInformation> = Vec::new();
    let mut k: usize = 0;
    while k < err.hints.len()
        invariant
            k <= err.hints@.len(),
            related@.map_values(|x: RelatedInformation| (x.range, x.message@)) =~= err.hints@.subrange(
                0,
                k as int,
            ).map_values(|h: String| (range, h@)),
        decreases err.hints@.len() - k,
    {
        let ghost before = related@;
        let item = RelatedInformation { range, message: err.hints[k].clone() };
        related.push(item);
        assert(related@.map_values(|x: RelatedInformation| (x.range, x.message@)) =~= before.map_values(
            |x: RelatedInformation| (x.range, x.message@),
        ).push((item.range, item.message@)));
        assert(err.hints@.subrange(0, k + 1).map_values(|h: String| (range, h@)) =~= err.hints@.subrange(
            0,
            k as int,
        ).map_values(|h: String| (range, h@)).push((range, err.hints@[k as int]@)));
        k = k + 1;
    }
    assert(err.hints@.subrange(0, err.hints@.len() as int) =~= err.hints@);
    Diagnostic { range, severity: Severity::Error, message: err.message.clone(), related }
}

/// The parser's first error below the root as a diagnostic, if there is
/// one; error nodes whose span lies outside the text are skipped.
pub fn syntax_error(tree: &SyntaxTree, text: &str) -> (r: Vec<Diagnostic>)
    ensures
        diagnostics_view(r@) == syntax_error_diagnostics_of(*tree, text@),
{
    let t = text_chars(text);
    let mut r: Vec<Diagnostic> = Vec::new();
    if tree.nodes.len() == 0 {
        return r;
    }
    let order = tree.preorder_descendants(tree.nodes.len() - 1);
    let mut k: usize = 0;
    while k < order.len()
        invariant
            k <= order@.len(),
            tree.nodes@.len() > 0,
            t@ == text@,
            order@ == tree.subtrees_from(tree.root(), 0),
            r@.len() == 0,
            first_error_from(*tree, t@, order@, 0) == first_error_from(*tree, t@, order@, k as int),
        decreases order@.len() - k,
    {
        let i = order[k];
        if i < tree.nodes.len() {
            let n = &tree.nodes[i];
            if n.kind == NodeKind::Error && n.error.is_some() && n.start <= n.end && n.end <= t.len() {
                let d = error_diagnostic_exec(&t, n);
                r.push(d);
                assert(diagnostics_view(r@) =~= seq![d@]);
                return r;
            }
        }
        k = k + 1;
    }
    assert(diagnostics_view(r@) =~= seq![]);
    r
}

fn delimiter_diagnostic(d: &DelimiterDiagnostic) -> (r: Diagnostic)
    ensures
        r@ == delimiter_view(*d),
{
    let end = if d.character < usize::MAX {
        d.character + 1
    } else {
        d.character
    };
    let r = Diagnostic {
        range: Range {
            start: Position { line: d.line, character: d.character },
            end: Position { line: d.line, character: end },
        },
        severity: Severity::Error,
        message: d.message(),
        related: Vec::new(),
    };
    assert(r@.related =~= seq![]);
    r
}

/// Appends all of `src` to `dst`.
fn append_all(dst: &mut Vec<Diagnostic>, src: Vec<Diagnostic>)
    ensures
        diagnostics_view(final(dst)@) == diagnostics_view(old(dst)@) + diagnostics_view(src@),
{
    let ghost start = dst@;
    let mut k: usize = 0;
    while k < src.len()
        invariant
            k <= src@.len(),
            diagnostics_view(dst@) =~= diagnostics_view(start) + diagnostics_view(
                src@.subrange(0, k as int),
            ),
        decreases src@.len() - k,
    {
        let ghost before = dst@;
        let d = src[k].clone_diagnostic();
        dst.push(d);
        assert(diagnostics_view(dst@) =~= diagnostics_view(before).push(d@));
        assert(diagnostics_view(src@.subrange(0, k + 1)) =~= diagnostics_view(
            src@.subrange(0, k as int),
        ).push(src@[k as int]@));
        k = k + 1;
    }
    assert(src@.subrange(0, src@.len() as int) =~= src@);
}

impl Diagnostic {
    /// A copy of the diagnostic.
    pub fn clone_diagnostic(&self) -> (r: Diagnostic)
        ensures
            r@ == self@,
    {
        let mut related: Vec<RelatedInformation> = Vec::new();
        let mut k: usize = 0;
        while k < self.related.len()
            invariant
                k <= self.related@.len(),
                related@.map_values(|x: RelatedInformation| (x.range, x.message@)) =~= self.related@.subrange(
                    0,
                    k as int,
                ).map_values(|x: RelatedInformation| (x.range, x.message@)),
            decreases self.related@.len() - k,
        {
            let x = &self.related[k];
            let ghost before = related@;
            let item = RelatedInformation { range: x.range, message: x.message.clone() };
            related.push(item);
            assert(related@.map_values(|x: RelatedInformation| (x.range, x.message@)) =~= before.map_values(
                |x: RelatedInformation| (x.range, x.message@),
            ).push((item.range, item.message@)));
            assert(self.related@.subrange(0, k + 1).map_values(
                |x: RelatedInformation| (x.range, x.message@),
            ) =~= self.related@.subrange(0, k as int).map_values(
                |x: RelatedInformation| (x.range, x.message@),
            ).push((x.range, x.message@)));
            k = k + 1;
        }
        assert(self.related@.subrange(0, self.related@.len() as int) =~= self.related@);
        Diagnostic {
            range: self.range,
            severity: self.severity,
            message: self.message.clone(),
            related,
        }
    }
}

/// All diagnostics of a document: the delimiter check, the parser's first
/// error and the references without a label, in that order.
pub fn document_diagnostics(tree: &SyntaxTree, text: &str) -> (r: Vec<Diagnostic>)
    ensures
        diagnostics_view(r@) == document_diagnostics_of(*tree, text@),
{
    let delims = check_unclosed_delimiters(text);
    let mut r: Vec<Diagnostic> = Vec::new();
    let mut k: usize = 0;
    while k < delims.len()
        invariant
            k <= delims@.len(),
            diagnostics_view(r@) =~= delims@.subrange(0, k as int).map_values(
                |d: DelimiterDiagnostic| delimiter_view(d),
            ),
        decreases delims@.len() - k,
    {
        let ghost before = r@;
        let d = delimiter_diagnostic(&delims[k]);
        r.push(d);
        assert(diagnostics_view(r@) =~= diagnostics_view(before).push(d@));
        assert(delims@.subrange(0, k + 1).map_values(|d: DelimiterDiagnostic| delimiter_view(d))
            =~= delims@.subrange(0, k as int).map_values(
            |d: DelimiterDiagnostic| delimiter_view(d),
        ).push(delimiter_view(delims@[k as int])));
        k = k + 1;
    }
    assert(delims@.subrange(0, delims@.len() as int) =~= delims@);
    append_all(&mut r, syntax_error(tree, text));
    append_all(&mut r, missing_label_error(tree, text));
    r
}

} // verus!
