//! Import statements at the top level of a document and the paths they
//! name; whether a path exists is found out by the caller.
use vstd::prelude::*;
use crate::diagnostics::{diagnostics_view, Diagnostic, DiagnosticView, Severity};
use crate::symbols::range_of;
use crate::text::{position_from_chars, text_chars, Range};
use crate::tree::{NodeKind, SyntaxTree, TreeNode};

verus! {

/// The path an import statement names, and where the statement stands.
#[derive(Clone, Debug)]
pub struct ImportPath {
    pub range: Range,
    pub path: String,
}

/// The first `"` in `t[k..e)`.
pub open spec fn first_quote_from(t: Seq<char>, k: int, e: int) -> Option<int>
    decreases e - k,
{
    if k < 0 || k >= e || k >= t.len() {
        None
    } else if t[k] == '"' {
        Some(k)
    } else {
        first_quote_from(t, k + 1, e)
    }
}

/// The last `"` in `t[s..k)`.
pub open spec fn last_quote_upto(t: Seq<char>, s: int, k: int) -> Option<int>
    decreases k - s,
{
    if k <= s || k > t.len() || s < 0 {
        None
    } else if t[k - 1] == '"' {
        Some(k - 1)
    } else {
        last_quote_upto(t, s, k - 1)
    }
}

/// The path of an import statement: the text between the first and the last
/// `"` of the statement.
pub open spec fn import_of(t: Seq<char>, n: TreeNode) -> Option<(Range, Seq<char>)> {
    if n.kind == NodeKind::ModuleImport && n.start <= n.end && n.end <= t.len() {
        match (
            first_quote_from(t, n.start as int, n.end as int),
            last_quote_upto(t, n.start as int, n.end as int),
        ) {
            (Some(a), Some(b)) => if a < b {
                Some((range_of(t, n.start as int, n.end as int), t.subrange(a + 1, b)))
            } else {
                None
            },
            _ => None,
        }
    } else {
        None
    }
}

/// The imports among the first `k` children of the root, in order.
pub open spec fn imports_upto(tree: SyntaxTree, t: Seq<char>, k: int) -> Seq<(Range, Seq<char>)>
    decreases k,
{
    if k <= 0 || tree.nodes@.len() == 0 {
        seq![]
    } else {
        let prev = imports_upto(tree, t, k - 1);
        let c = tree.nodes@[tree.root() as int].children@[k - 1];
        if c < tree.nodes@.len() {
            match import_of(t, tree.nodes@[c as int]) {
                Some(i) => prev.push(i),
                None => prev,
            }
        } else {
            prev
        }
    }
}

/// The imports among the direct children of the root, in document order.
pub open spec fn imports_of(tree: SyntaxTree, t: Seq<char>) -> Seq<(Range, Seq<char>)> {
    if tree.nodes@.len() == 0 {
        seq![]
    } else {
        imports_upto(tree, t, tree.nodes@[tree.root() as int].children@.len() as int)
    }
}

pub open spec fn imports_view(v: Seq<ImportPath>) -> Seq<(Range, Seq<char>)> {
    v.map_values(|i: ImportPath| (i.range, i.path@))
}

fn import_at(text: &str, t: &Vec<char>, n: &TreeNode) -> (r: Option<ImportPath>)
    requires
        t@ == text@,
    ensures
        match import_of(t@, *n) {
            Some(v) => r matches Some(i) && (i.range, i.path@) == v,
            None => r is None,
        },
{
    if !(n.kind == NodeKind::ModuleImport) || n.start > n.end || n.end > t.len() {
        return None;
    }
    let mut a: usize = n.start;
    while a < n.end && t[a] != '"'
        invariant
            n.start <= a <= n.end <= t@.len(),
            first_quote_from(t@, n.start as int, n.end as int) == first_quote_from(
                t@,
                a as int,
                n.end as int,
            ),
        decreases n.end - a,
    {
        a = a + 1;
    }
    let mut b: usize = n.end;
    while b > n.start && t[b - 1] != '"'
        invariant
            n.start <= b <= n.end <= t@.len(),
            last_quote_upto(t@, n.start as int, n.end as int) == last_quote_upto(
                t@,
                n.start as int,
                b as int,
            ),
        decreases b - n.start,
    {
        b = b - 1;
    }
    if a >= n.end || b <= n.start || a >= b - 1 {
        return None;
    }
    let path = String::from_str(text.substring_char(a + 1, b - 1));
    let start = match position_from_chars(t, n.start) {
        Some(p) => p,
        None => {
            return None;
        },
    };
    let end = match position_from_chars(t, n.end) {
        Some(p) => p,
        None => {
            return None;
        },
    };
    Some(ImportPath { range: Range { start, end }, path })
}

/// The paths named by the import statements among the root's children, in
/// document order; a statement without a quoted path is skipped.
pub fn import_paths(tree: &SyntaxTree, text: &str) -> (r: Vec<ImportPath>)
    ensures
        imports_view(r@) == imports_of(*tree, text@),
{
    let t = text_chars(text);
    let mut r: Vec<ImportPath> = Vec::new();
    if tree.nodes.len() == 0 {
        return r;
    }
    let root = tree.nodes.len() - 1;
    let n = tree.nodes[root].children.len();
    let mut k: usize = 0;
    while k < n
        invariant
            tree.nodes@.len() > 0,
            root == tree.root(),
            n == tree.nodes@[root as int].children@.len(),
            k <= n,
            t@ == text@,
            imports_view(r@) == imports_upto(*tree, t@, k as int),
        decreases n - k,
    {
        let c = tree.nodes[root].children[k];
        if c < tree.nodes.len() {
            match import_at(text, &t, &tree.nodes[c]) {
                Some(i) => {
                    let ghost before = r@;
                    r.push(i);
                    assert(imports_view(r@) =~= imports_view(before).push((i.range, i.path@)));
                },
                None => {},
            }
        }
        k = k + 1;
    }
    r
}

/// The diagnostic for an import whose path does not exist.
pub open spec fn missing_import_diagnostic(r: Range) -> DiagnosticView {
    DiagnosticView {
        range: r,
        severity: Severity::Error,
        message: "imported file does not exist"@,
        related: seq![],
    }
}

/// One diagnostic for each of the first `k` imports that `exists` marks as
/// missing.
pub open spec fn missing_imports_upto(imports: Seq<ImportPath>, exists: Seq<bool>, k: int) -> Seq<
    DiagnosticView,
>
    decreases k,
{
    if k <= 0 {
        seq![]
    } else if k - 1 < exists.len() && !exists[k - 1] {
        missing_imports_upto(imports, exists, k - 1).push(
            missing_import_diagnostic(imports[k - 1].range),
        )
    } else {
        missing_imports_upto(imports, exists, k - 1)
    }
}

/// One diagnostic at each import whose path does not exist, where
/// `exists[i]` tells whether the path of `imports[i]` exists; an import
/// without an answer counts as existing.
pub fn missing_import_diagnostics(imports: &Vec<ImportPath>, exists: &Vec<bool>) -> (r: Vec<
    Diagnostic,
>)
    ensures
        diagnostics_view(r@) == missing_imports_upto(imports@, exists@, imports@.len() as int),
{
    let mut r: Vec<Diagnostic> = Vec::new();
    let mut k: usize = 0;
    while k < imports.len()
        invariant
            k <= imports@.len(),
            diagnostics_view(r@) == missing_imports_upto(imports@, exists@, k as int),
        decreases imports@.len() - k,
    {
        if k < exists.len() && !exists[k] {
            let d = Diagnostic {
                range: imports[k].range,
                severity: Severity::Error,
                message: String::from_str("imported file does not exist"),
                related: Vec::new(),
            };
            let ghost before = r@;
            r.push(d);
            assert(d@.related =~= seq![]);
            assert(diagnostics_view(r@) =~= diagnostics_view(before).push(d@));
        }
        k = k + 1;
    }
    r
}

} // verus!
