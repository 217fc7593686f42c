//! Labels (`<name>`) and references (`@name`) among the direct children of
//! the root, the references that no label answers, and goto-definition.
use vstd::prelude::*;
use crate::diagnostics::{Diagnostic, DiagnosticView, Severity, diagnostics_view};
use crate::text::{position_at, position_from_chars, text_chars, Position, Range};
use crate::tree::{NodeKind, SyntaxTree, TreeNode};

verus! {

#[derive(Clone, Copy, Debug, PartialEq, Eq, Structural)]
pub enum SymbolKind {
    Label,
    Reference,
}

/// A label or a reference, with its name and where it stands.
#[derive(Clone, Debug)]
pub struct Symbol {
    pub name: String,
    pub range: Range,
    pub kind: SymbolKind,
}

/// A symbol as plain values.
pub struct SymbolView {
    pub name: Seq<char>,
    pub range: Range,
    pub kind: SymbolKind,
}

impl View for Symbol {
    type V = SymbolView;

    open spec fn view(&self) -> SymbolView {
        SymbolView { name: self.name@, range: self.range, kind: self.kind }
    }
}

pub open spec fn symbols_view(s: Seq<Symbol>) -> Seq<SymbolView> {
    s.map_values(|x: Symbol| x@)
}

pub open spec fn names_view(s: Seq<String>) -> Seq<Seq<char>> {
    s.map_values(|x: String| x@)
}

/// The range of character offsets `[s, e)` as line/column positions.
pub open spec fn range_of(t: Seq<char>, s: int, e: int) -> Range {
    Range { start: position_at(t, s), end: position_at(t, e) }
}

/// The name of a label node whose text is `<name>`.
pub open spec fn label_name(t: Seq<char>, n: TreeNode) -> Option<Seq<char>> {
    if n.kind == NodeKind::Label && n.start + 2 <= n.end && n.end <= t.len() && t[n.start as int]
        == '<' && t[n.end - 1] == '>' {
        Some(t.subrange(n.start + 1, n.end - 1))
    } else {
        None
    }
}

/// The name of a reference node whose text is `@name`.
pub open spec fn reference_name(t: Seq<char>, n: TreeNode) -> Option<Seq<char>> {
    if n.kind == NodeKind::Ref && n.start < n.end && n.end <= t.len() && t[n.start as int] == '@' {
        Some(t.subrange(n.start + 1, n.end as int))
    } else {
        None
    }
}

/// The symbol that node `n` stands for, if it is a well-formed label or
/// reference.
pub open spec fn symbol_of(t: Seq<char>, n: TreeNode) -> Option<SymbolView> {
    if label_name(t, n) is Some {
        Some(
            SymbolView {
                name: label_name(t, n)->0,
                range: range_of(t, n.start as int, n.end as int),
                kind: SymbolKind::Label,
            },
        )
    } else if reference_name(t, n) is Some {
        Some(
            SymbolView {
                name: reference_name(t, n)->0,
                range: range_of(t, n.start as int, n.end as int),
                kind: SymbolKind::Reference,
            },
        )
    } else {
        None
    }
}

/// The symbols among the first `k` children of the root, in order.
pub open spec fn symbols_upto(tree: SyntaxTree, t: Seq<char>, k: int) -> Seq<SymbolView>
    decreases k,
{
    if k <= 0 || tree.nodes@.len() == 0 {
        seq![]
    } else {
        let prev = symbols_upto(tree, t, k - 1);
        let c = tree.nodes@[tree.root() as int].children@[k - 1];
        if c < tree.nodes@.len() {
            match symbol_of(t, tree.nodes@[c as int]) {
                Some(s) => prev.push(s),
                None => prev,
            }
        } else {
            prev
        }
    }
}

/// The labels and references among the direct children of the root, in
/// document order.
pub open spec fn symbols_of(tree: SyntaxTree, t: Seq<char>) -> Seq<SymbolView> {
    if tree.nodes@.len() == 0 {
        seq![]
    } else {
        symbols_upto(tree, t, tree.nodes@[tree.root() as int].children@.len() as int)
    }
}

/// Whether some label in `syms` has the name `name`.
pub open spec fn has_label(syms: Seq<SymbolView>, name: Seq<char>) -> bool {
    exists|i: int| 0 <= i < syms.len() && #[trigger] syms[i].kind == SymbolKind::Label && syms[i].name == name
}

/// The names among the first `k` of `items` that `known` does not hold, in
/// order.
pub open spec fn missing_upto(items: Seq<Seq<char>>, known: Seq<Seq<char>>, k: int) -> Seq<
    Seq<char>,
>
    decreases k,
{
    if k <= 0 {
        seq![]
    } else if known.contains(items[k - 1]) {
        missing_upto(items, known, k - 1)
    } else {
        missing_upto(items, known, k - 1).push(items[k - 1])
    }
}

pub open spec fn missing_of(items: Seq<Seq<char>>, known: Seq<Seq<char>>) -> Seq<Seq<char>> {
    missing_upto(items, known, items.len() as int)
}

fn contains_name(v: &Vec<String>, x: &String) -> (r: bool)
    ensures
        r == names_view(v@).contains(x@),
{
    let mut k: usize = 0;
    while k < v.len()
        invariant
            k <= v@.len(),
            forall|j: int| 0 <= j < k ==> #[trigger] v@[j]@ != x@,
        decreases v@.len() - k,
    {
        if v[k] == *x {
            assert(names_view(v@)[k as int] == x@);
            return true;
        }
        k = k + 1;
    }
    assert forall|j: int| 0 <= j < names_view(v@).len() implies names_view(v@)[j] != x@ by {
        assert(v@[j]@ != x@);
    }
    false
}

/// The items of `vec1` that `vec2` does not hold, in their order in `vec1`.
pub fn find_missing_items(vec1: &Vec<String>, vec2: &Vec<String>) -> (r: Vec<String>)
    ensures
        names_view(r@) == missing_of(names_view(vec1@), names_view(vec2@)),
{
    let mut r: Vec<String> = Vec::new();
    let mut k: usize = 0;
    while k < vec1.len()
        invariant
            k <= vec1@.len(),
            names_view(r@) == missing_upto(names_view(vec1@), names_view(vec2@), k as int),
        decreases vec1@.len() - k,
    {
        let ghost before = r@;
        if !contains_name(vec2, &vec1[k]) {
            r.push(vec1[k].clone());
            assert(names_view(r@) =~= names_view(before).push(vec1@[k as int]@));
        }
        k = k + 1;
    }
    r
}

proof fn lemma_missing_contains(items: Seq<Seq<char>>, known: Seq<Seq<char>>, k: int, x: Seq<char>)
    requires
        0 <= k <= items.len(),
    ensures
        missing_upto(items, known, k).contains(x) <==> (items.subrange(0, k).contains(x)
            && !known.contains(x)),
    decreases k,
{
    if k > 0 {
        lemma_missing_contains(items, known, k - 1, x);
        let prev = missing_upto(items, known, k - 1);
        let pre = items.subrange(0, k - 1);
        assert(items.subrange(0, k) =~= pre.push(items[k - 1]));
        if items.subrange(0, k).contains(x) && !pre.contains(x) {
            let i = choose|i: int| 0 <= i < k && items.subrange(0, k)[i] == x;
            if i < k - 1 {
                assert(pre[i] == x);
            }
        }
        if pre.contains(x) {
            let i = choose|i: int| 0 <= i < k - 1 && pre[i] == x;
            assert(items.subrange(0, k)[i] == x);
        }
        if !known.contains(items[k - 1]) {
            let cur = prev.push(items[k - 1]);
            if prev.contains(x) {
                let i = choose|i: int| 0 <= i < prev.len() && prev[i] == x;
                assert(cur[i] == x);
            }
            if cur.contains(x) && x != items[k - 1] {
                let i = choose|i: int| 0 <= i < cur.len() && cur[i] == x;
                assert(prev[i] == x);
            }
            assert(cur[prev.len() as int] == items[k - 1]);
            assert(items.subrange(0, k)[k - 1] == items[k - 1]);
        }
    } else {
        assert(items.subrange(0, 0) =~= Seq::<Seq<char>>::empty());
    }
}

/// The missing names are exactly the set difference: a name is missing iff
/// it is among the references and not among the labels.
pub proof fn lemma_missing_is_set_difference(references: Seq<Seq<char>>, labels: Seq<Seq<char>>)
    ensures
        missing_of(references, labels).to_set() =~= references.to_set().difference(labels.to_set()),
{
    assert forall|x: Seq<char>| #[trigger] missing_of(references, labels).to_set().contains(x) <==> references.to_set().difference(
        labels.to_set(),
    ).contains(x) by {
        lemma_missing_contains(references, labels, references.len() as int, x);
        assert(references.subrange(0, references.len() as int) =~= references);
    }
}


/// The names of the symbols of kind `kind` among the first `k` of `syms`.
pub open spec fn names_of_kind_upto(syms: Seq<SymbolView>, kind: SymbolKind, k: int) -> Seq<
    Seq<char>,
>
    decreases k,
{
    if k <= 0 {
        seq![]
    } else if syms[k - 1].kind == kind {
        names_of_kind_upto(syms, kind, k - 1).push(syms[k - 1].name)
    } else {
        names_of_kind_upto(syms, kind, k - 1)
    }
}

pub open spec fn names_of_kind(syms: Seq<SymbolView>, kind: SymbolKind) -> Seq<Seq<char>> {
    names_of_kind_upto(syms, kind, syms.len() as int)
}

/// The diagnostic for a reference at `r` that no label answers.
pub open spec fn missing_label_diagnostic(r: Range) -> DiagnosticView {
    DiagnosticView {
        range: r,
        severity: Severity::Error,
        message: "reference is missing label"@,
        related: seq![],
    }
}

/// One diagnostic for each of the first `k` symbols that is a reference
/// without a label of its name, in order.
pub open spec fn missing_reference_upto(syms: Seq<SymbolView>, k: int) -> Seq<DiagnosticView>
    decreases k,
{
    if k <= 0 {
        seq![]
    } else if syms[k - 1].kind == SymbolKind::Reference && !has_label(syms, syms[k - 1].name) {
        missing_reference_upto(syms, k - 1).push(missing_label_diagnostic(syms[k - 1].range))
    } else {
        missing_reference_upto(syms, k - 1)
    }
}

pub open spec fn missing_reference_diagnostics_of(syms: Seq<SymbolView>) -> Seq<DiagnosticView> {
    missing_reference_upto(syms, syms.len() as int)
}

/// Whether `p` comes no later than `q`.
pub open spec fn position_le(p: Position, q: Position) -> bool {
    p.line < q.line || (p.line == q.line && p.character <= q.character)
}

/// Whether `p` lies in `r`, both ends included.
pub open spec fn range_contains(r: Range, p: Position) -> bool {
    position_le(r.start, p) && position_le(p, r.end)
}

/// The range of the last label named `name` among the first `k` of `syms`:
/// of labels with one name, the last one written wins.
pub open spec fn label_range_upto(syms: Seq<SymbolView>, name: Seq<char>, k: int) -> Option<Range>
    decreases k,
{
    if k <= 0 {
        None
    } else if syms[k - 1].kind == SymbolKind::Label && syms[k - 1].name == name {
        Some(syms[k - 1].range)
    } else {
        label_range_upto(syms, name, k - 1)
    }
}

pub open spec fn label_range(syms: Seq<SymbolView>, name: Seq<char>) -> Option<Range> {
    label_range_upto(syms, name, syms.len() as int)
}

/// The pairs (reference range, label range) for the first `k` of `syms`:
/// one for each reference whose name has a label.
pub open spec fn definitions_upto(syms: Seq<SymbolView>, k: int) -> Seq<(Range, Range)>
    decreases k,
{
    if k <= 0 {
        seq![]
    } else if syms[k - 1].kind == SymbolKind::Reference && label_range(syms, syms[k - 1].name) is Some {
        definitions_upto(syms, k - 1).push((syms[k - 1].range, label_range(syms, syms[k - 1].name)->0))
    } else {
        definitions_upto(syms, k - 1)
    }
}

pub open spec fn definitions_of(syms: Seq<SymbolView>) -> Seq<(Range, Range)> {
    definitions_upto(syms, syms.len() as int)
}

/// The label range of the first pair, from number `k` on, whose reference
/// range holds `p`.
pub open spec fn definition_at(defs: Seq<(Range, Range)>, p: Position, k: int) -> Option<Range>
    decreases defs.len() - k,
{
    if k < 0 || k >= defs.len() {
        None
    } else if range_contains(defs[k].0, p) {
        Some(defs[k].1)
    } else {
        definition_at(defs, p, k + 1)
    }
}

/// The symbol that `n` stands for, read from the text under its span.
fn symbol_at(text: &str, t: &Vec<char>, n: &TreeNode) -> (r: Option<Symbol>)
    requires
        t@ == text@,
    ensures
        match symbol_of(t@, *n) {
            Some(v) => r is Some && r->0@ == v,
            None => r is None,
        },
{
    let s = n.start;
    let e = n.end;
    if e > t.len() || s >= e {
        return None;
    }
    let kind;
    let from;
    let to;
    if n.kind == NodeKind::Label && e - s >= 2 && t[s] == '<' && t[e - 1] == '>' {
        kind = SymbolKind::Label;
        from = s + 1;
        to = e - 1;
    } else if n.kind == NodeKind::Ref && t[s] == '@' {
        kind = SymbolKind::Reference;
        from = s + 1;
        to = e;
    } else {
        return None;
    }
    let name = String::from_str(text.substring_char(from, to));
    let start = match position_from_chars(t, s) {
        Some(p) => p,
        None => {
            return None;
        },
    };
    let end = match position_from_chars(t, e) {
        Some(p) => p,
        None => {
            return None;
        },
    };
    Some(Symbol { name, range: Range { start, end }, kind })
}

/// The labels and references among the direct children of the root, in
/// document order. A node whose text is not `<name>` or `@name` is skipped.
pub fn collect_symbols(tree: &SyntaxTree, text: &str) -> (r: Vec<Symbol>)
    ensures
        symbols_view(r@) == symbols_of(*tree, text@),
{
    let t = text_chars(text);
    let mut r: Vec<Symbol> = Vec::new();
    if tree.nodes.len() == 0 {
        return r;
    }
    let root = tree.nodes.len() - 1;
    let n = tree.nodes[root].children.len();
    let mut k: usize = 0;
    while k < n
        invariant
            tree.nodes@.len() > 0,
            root == tree.root(),
            n == tree.nodes@[root as int].children@.len(),
            k <= n,
            t@ == text@,
            symbols_view(r@) == symbols_upto(*tree, t@, k as int),
        decreases n - k,
    {
        let c = tree.nodes[root].children[k];
        if c < tree.nodes.len() {
            match symbol_at(text, &t, &tree.nodes[c]) {
                Some(sym) => {
                    let ghost before = r@;
                    r.push(sym);
                    assert(symbols_view(r@) =~= symbols_view(before).push(sym@));
                },
                None => {},
            }
        }
        k = k + 1;
    }
    r
}

/// The names of the symbols of kind `kind`, in order.
pub fn names_of(syms: &Vec<Symbol>, kind: SymbolKind) -> (r: Vec<String>)
    ensures
        names_view(r@) == names_of_kind(symbols_view(syms@), kind),
{
    let mut r: Vec<String> = Vec::new();
    let mut k: usize = 0;
    while k < syms.len()
        invariant
            k <= syms@.len(),
            names_view(r@) == names_of_kind_upto(symbols_view(syms@), kind, k as int),
        decreases syms@.len() - k,
    {
        if syms[k].kind == kind {
            let ghost before = r@;
            r.push(syms[k].name.clone());
            assert(names_view(r@) =~= names_view(before).push(syms@[k as int].name@));
        }
        k = k + 1;
    }
    r
}

/// The names that references use and no label defines: references minus
/// labels, in the order of the references.
pub fn missing_labels(tree: &SyntaxTree, text: &str) -> (r: Vec<String>)
    ensures
        names_view(r@) == missing_of(
            names_of_kind(symbols_of(*tree, text@), SymbolKind::Reference),
            names_of_kind(symbols_of(*tree, text@), SymbolKind::Label),
        ),
{
    let syms = collect_symbols(tree, text);
    let references = names_of(&syms, SymbolKind::Reference);
    let labels = names_of(&syms, SymbolKind::Label);
    find_missing_items(&references, &labels)
}

fn has_label_exec(syms: &Vec<Symbol>, name: &String) -> (r: bool)
    ensures
        r == has_label(symbols_view(syms@), name@),
{
    let mut k: usize = 0;
    while k < syms.len()
        invariant
            k <= syms@.len(),
            forall|j: int|
                0 <= j < k ==> !(#[trigger] symbols_view(syms@)[j].kind == SymbolKind::Label
                    && symbols_view(syms@)[j].name == name@),
        decreases syms@.len() - k,
    {
        if syms[k].kind == SymbolKind::Label && syms[k].name == *name {
            assert(symbols_view(syms@)[k as int].kind == SymbolKind::Label);
            return true;
        }
        assert(symbols_view(syms@)[k as int] == syms@[k as int]@);
        k = k + 1;
    }
    false
}

/// One diagnostic, "reference is missing label", at each reference whose
/// name no label defines, in document order.
pub fn missing_label_error(tree: &SyntaxTree, text: &str) -> (r: Vec<Diagnostic>)
    ensures
        diagnostics_view(r@) == missing_reference_diagnostics_of(symbols_of(*tree, text@)),
{
    let syms = collect_symbols(tree, text);
    let mut r: Vec<Diagnostic> = Vec::new();
    let mut k: usize = 0;
    while k < syms.len()
        invariant
            k <= syms@.len(),
            diagnostics_view(r@) == missing_reference_upto(symbols_view(syms@), k as int),
        decreases syms@.len() - k,
    {
        assert(symbols_view(syms@)[k as int] == syms@[k as int]@);
        if syms[k].kind == SymbolKind::Reference && !has_label_exec(&syms, &syms[k].name) {
            let d = Diagnostic {
                range: syms[k].range,
                severity: Severity::Error,
                message: String::from_str("reference is missing label"),
                related: Vec::new(),
            };
            let ghost before = r@;
            r.push(d);
            assert(d@.related =~= seq![]);
            assert(diagnostics_view(r@) =~= diagnostics_view(before).push(d@));
        }
        k = k + 1;
    }
    r
}

fn label_range_exec(syms: &Vec<Symbol>, name: &String) -> (r: Option<Range>)
    ensures
        r == label_range(symbols_view(syms@), name@),
{
    let mut k: usize = syms.len();
    while k > 0
        invariant
            k <= syms@.len(),
            label_range(symbols_view(syms@), name@) == label_range_upto(
                symbols_view(syms@),
                name@,
                k as int,
            ),
        decreases k,
    {
        assert(symbols_view(syms@)[k - 1] == syms@[k - 1]@);
        if syms[k - 1].kind == SymbolKind::Label && syms[k - 1].name == *name {
            return Some(syms[k - 1].range);
        }
        k = k - 1;
    }
    None
}

fn position_le_exec(p: Position, q: Position) -> (r: bool)
    ensures
        r == position_le(p, q),
{
    p.line < q.line || (p.line == q.line && p.character <= q.character)
}

/// A reference and the label it points to.
#[derive(Clone, Copy, Debug, PartialEq, Eq, Structural)]
pub struct DefinitionsMaker {
    /// Where the reference stands.
    pub location: Range,
    /// Where its label stands.
    pub response: Range,
}

pub open spec fn definitions_view(v: Seq<DefinitionsMaker>) -> Seq<(Range, Range)> {
    v.map_values(|d: DefinitionsMaker| (d.location, d.response))
}

/// For each reference whose name has a label, in document order, the
/// reference's range and the range of the label (the last one of that name).
pub fn definitions(tree: &SyntaxTree, text: &str) -> (r: Vec<DefinitionsMaker>)
    ensures
        definitions_view(r@) == definitions_of(symbols_of(*tree, text@)),
{
    let syms = collect_symbols(tree, text);
    let mut r: Vec<DefinitionsMaker> = Vec::new();
    let mut k: usize = 0;
    while k < syms.len()
        invariant
            k <= syms@.len(),
            definitions_view(r@) == definitions_upto(symbols_view(syms@), k as int),
        decreases syms@.len() - k,
    {
        assert(symbols_view(syms@)[k as int] == syms@[k as int]@);
        if syms[k].kind == SymbolKind::Reference {
            match label_range_exec(&syms, &syms[k].name) {
                Some(label) => {
                    let d = DefinitionsMaker { location: syms[k].range, response: label };
                    let ghost before = r@;
                    r.push(d);
                    assert(definitions_view(r@) =~= definitions_view(before).push((d.location, d.response)));
                },
                None => {},
            }
        }
        k = k + 1;
    }
    r
}

/// Goto-definition: the label range for the first reference, in document
/// order, whose range holds `position` and whose name has a label.
pub fn provide_definitions(tree: &SyntaxTree, text: &str, position: Position) -> (r: Option<Range>)
    ensures
        r == definition_at(definitions_of(symbols_of(*tree, text@)), position, 0),
{
    let defs = definitions(tree, text);
    let mut k: usize = 0;
    while k < defs.len()
        invariant
            k <= defs@.len(),
            definitions_view(defs@) == definitions_of(symbols_of(*tree, text@)),
            definition_at(definitions_view(defs@), position, 0) == definition_at(
                definitions_view(defs@),
                position,
                k as int,
            ),
        decreases defs@.len() - k,
    {
        let d = defs[k];
        assert(definitions_view(defs@)[k as int] == (d.location, d.response));
        if position_le_exec(d.location.start, position) && position_le_exec(position, d.location.end) {
            return Some(d.response);
        }
        k = k + 1;
    }
    None
}

/// Whether a later symbol of `syms` than number `i` has the same kind and
/// name.
pub open spec fn overridden(syms: Seq<SymbolView>, i: int) -> bool {
    exists|j: int|
        i < j < syms.len() && #[trigger] syms[j].kind == syms[i].kind && syms[j].name == syms[i].name
}

/// The entries of the symbol table among the first `k` of `syms`: a symbol
/// stays unless a later one of the same kind and name overrides it.
pub open spec fn table_upto(syms: Seq<SymbolView>, k: int) -> Seq<SymbolView>
    decreases k,
{
    if k <= 0 {
        seq![]
    } else if overridden(syms, k - 1) {
        table_upto(syms, k - 1)
    } else {
        table_upto(syms, k - 1).push(syms[k - 1])
    }
}

fn overridden_exec(syms: &Vec<Symbol>, i: usize) -> (r: bool)
    requires
        i < syms@.len(),
    ensures
        r == overridden(symbols_view(syms@), i as int),
{
    let n = syms.len();
    let mut j: usize = i + 1;
    while j < n
        invariant
            i < j <= syms@.len(),
            n == syms@.len(),
            forall|q: int|
                i < q < j ==> !(#[trigger] symbols_view(syms@)[q].kind == symbols_view(syms@)[i as int].kind
                    && symbols_view(syms@)[q].name == symbols_view(syms@)[i as int].name),
        decreases n - j,
    {
        assert(symbols_view(syms@)[j as int] == syms@[j as int]@);
        assert(symbols_view(syms@)[i as int] == syms@[i as int]@);
        if syms[j].kind == syms[i].kind && syms[j].name == syms[i].name {
            assert(symbols_view(syms@)[j as int].kind == symbols_view(syms@)[i as int].kind
                && symbols_view(syms@)[j as int].name == symbols_view(syms@)[i as int].name);
            return true;
        }
        j = j + 1;
    }
    false
}

/// The symbol table: labels and references kept apart, one entry for each
/// kind and name, the last one written in document order winning; entries
/// in document order.
pub fn symbol_table(tree: &SyntaxTree, text: &str) -> (r: Vec<Symbol>)
    ensures
        symbols_view(r@) == table_upto(symbols_of(*tree, text@), symbols_of(*tree, text@).len() as int),
{
    let syms = collect_symbols(tree, text);
    let mut r: Vec<Symbol> = Vec::new();
    let mut k: usize = 0;
    while k < syms.len()
        invariant
            k <= syms@.len(),
            symbols_view(r@) == table_upto(symbols_view(syms@), k as int),
        decreases syms@.len() - k,
    {
        if !overridden_exec(&syms, k) {
            let s = Symbol { name: syms[k].name.clone(), range: syms[k].range, kind: syms[k].kind };
            let ghost before = r@;
            r.push(s);
            assert(symbols_view(syms@)[k as int] == syms@[k as int]@);
            assert(symbols_view(r@) =~= symbols_view(before).push(s@));
        }
        k = k + 1;
    }
    r
}

} // verus!
