//! Parsing: the typst parser builds its tree, which is then copied into the
//! arena of `tree`, with spans counted in characters.
use vstd::prelude::*;
use typst_syntax::{SyntaxKind, SyntaxNode};
use crate::tree::{NodeKind, ParseError, SyntaxTree, TreeNode};

verus! {

#[verifier::external_type_specification]
#[verifier::external_body]
pub struct ExSyntaxNode(SyntaxNode);

/// The text of a node of the typst tree: the texts of its leaves, in order.
pub uninterp spec fn full_text_of(n: SyntaxNode) -> Seq<char>;

/// The texts of `nodes`, one after the other.
pub open spec fn joined_texts(nodes: Seq<SyntaxNode>) -> Seq<char>
    decreases nodes.len(),
{
    if nodes.len() == 0 {
        seq![]
    } else {
        joined_texts(nodes.drop_last()) + full_text_of(nodes.last())
    }
}

/// Relies on `typst_syntax::parse`, which is error tolerant and lossless: it
/// returns a tree for any text, whose leaves hold the whole text, with error
/// nodes where the text does not parse.
#[verifier::external_body]
fn parse_markup(text: &str) -> (r: SyntaxNode)
    ensures
        full_text_of(r) == text@,
{
    typst_syntax::parse(text)
}

/// Relies on `SyntaxNode::kind`, mapped onto the kinds this library tells
/// apart.
#[verifier::external_body]
fn node_kind(node: &SyntaxNode) -> NodeKind {
    match node.kind() {
        SyntaxKind::Markup => NodeKind::Markup,
        SyntaxKind::FuncCall => NodeKind::FuncCall,
        SyntaxKind::Ident => NodeKind::Ident,
        SyntaxKind::Label => NodeKind::Label,
        SyntaxKind::Ref => NodeKind::Ref,
        SyntaxKind::RefMarker => NodeKind::RefMarker,
        SyntaxKind::Linebreak => NodeKind::Linebreak,
        SyntaxKind::LineComment => NodeKind::LineComment,
        SyntaxKind::BlockComment => NodeKind::BlockComment,
        SyntaxKind::ModuleImport => NodeKind::ModuleImport,
        SyntaxKind::Error => NodeKind::Error,
        _ => NodeKind::Other,
    }
}

/// Relies on `SyntaxNode::children`: the children in document order, empty
/// for a leaf; an inner node's text is its children's texts joined.
#[verifier::external_body]
fn node_children(node: &SyntaxNode) -> (r: Vec<SyntaxNode>)
    ensures
        r@.len() > 0 ==> full_text_of(*node) == joined_texts(r@),
{
    node.children().cloned().collect()
}

/// Relies on `SyntaxNode::full_text`: the text of the node.
#[verifier::external_body]
fn node_full_text(node: &SyntaxNode) -> (r: String)
    ensures
        r@ == full_text_of(*node),
{
    node.full_text().to_string()
}

/// Relies on `SyntaxNode::errors_and_warnings`: the first error of the node,
/// with its message and hints.
#[verifier::external_body]
fn node_error(node: &SyntaxNode) -> Option<ParseError> {
    node.errors_and_warnings().0.into_iter().next().map(
        |d| ParseError {
            message: d.message.to_string(),
            hints: d.hints.iter().map(|h| h.v.to_string()).collect(),
        },
    )
}

/// Every child in `nodes` stands before its parent.
pub open spec fn arena_wf(nodes: Seq<TreeNode>) -> bool {
    forall|i: int, j: int|
        0 <= i < nodes.len() && 0 <= j < nodes[i].children@.len() ==> #[trigger] nodes[i].children@[j]
            < i
}

proof fn lemma_joined_prefix(s: Seq<SyntaxNode>, k: int)
    requires
        0 <= k < s.len(),
    ensures
        joined_texts(s.subrange(0, k + 1)) == joined_texts(s.subrange(0, k)) + full_text_of(s[k]),
{
    assert(s.subrange(0, k + 1).drop_last() =~= s.subrange(0, k));
}

proof fn lemma_joined_len(s: Seq<SyntaxNode>, k: int)
    requires
        0 <= k <= s.len(),
    ensures
        joined_texts(s.subrange(0, k)).len() <= joined_texts(s).len(),
    decreases s.len() - k,
{
    if k < s.len() {
        lemma_joined_prefix(s, k);
        lemma_joined_len(s, k + 1);
    } else {
        assert(s.subrange(0, k) =~= s);
    }
}

/// The nodes of `nodes` from number `from` on span no more than `[lo, hi]`.
pub open spec fn spans_between(nodes: Seq<TreeNode>, from: int, lo: int, hi: int) -> bool {
    forall|i: int| from <= i < nodes.len() ==> lo <= #[trigger] nodes[i].start <= nodes[i].end <= hi
}

/// Copies `node` and its descendants after `nodes`, children before their
/// parent, the node starting at offset `start`; returns the offset where it
/// ends, `start` plus the length of its text. Below `depth` levels, nodes
/// are copied without their children.
fn push_subtree(node: &SyntaxNode, start: usize, depth: usize, nodes: &mut Vec<TreeNode>) -> (r:
    usize)
    requires
        arena_wf(old(nodes)@),
        start + full_text_of(*node).len() <= usize::MAX,
    ensures
        arena_wf(final(nodes)@),
        final(nodes)@.len() > old(nodes)@.len(),
        final(nodes)@.subrange(0, old(nodes)@.len() as int) == old(nodes)@,
        final(nodes)@.last().start == start,
        final(nodes)@.last().end == r,
        r == start + full_text_of(*node).len(),
        spans_between(final(nodes)@, old(nodes)@.len() as int, start as int, r as int),
    decreases depth,
{
    let kind = node_kind(node);
    let children = node_children(node);
    if children.len() == 0 || depth == 0 {
        let text = node_full_text(node);
        let end = start + text.as_str().unicode_len();
        let error = if kind == NodeKind::Error {
            node_error(node)
        } else {
            None
        };
        let ghost before = nodes@;
        nodes.push(TreeNode { kind, start, end, children: Vec::new(), error });
        assert(nodes@.subrange(0, before.len() as int) =~= before);
        return end;
    }
    let ghost first = nodes@;
    let mut idx: Vec<usize> = Vec::new();
    let mut cur = start;
    let mut k: usize = 0;
    while k < children.len()
        invariant
            arena_wf(nodes@),
            nodes@.len() >= first.len(),
            nodes@.subrange(0, first.len() as int) == first,
            forall|j: int| 0 <= j < idx@.len() ==> #[trigger] idx@[j] < nodes@.len(),
            k <= children@.len(),
            children@.len() > 0,
            full_text_of(*node) == joined_texts(children@),
            cur == start + joined_texts(children@.subrange(0, k as int)).len(),
            start + full_text_of(*node).len() <= usize::MAX,
            spans_between(nodes@, first.len() as int, start as int, cur as int),
            depth > 0,
        decreases children.len() - k,
    {
        let ghost before = nodes@;
        let ghost cur0 = cur;
        proof {
            lemma_joined_prefix(children@, k as int);
            lemma_joined_len(children@, k + 1);
        }
        cur = push_subtree(&children[k], cur, depth - 1, nodes);
        assert(nodes@.subrange(0, first.len() as int) =~= nodes@.subrange(
            0,
            before.len() as int,
        ).subrange(0, first.len() as int));
        assert forall|i: int| first.len() <= i < nodes@.len() implies start <= #[trigger] nodes@[i].start
            <= nodes@[i].end <= cur by {
            if i < before.len() {
                assert(nodes@[i] == nodes@.subrange(0, before.len() as int)[i]);
            }
        }
        idx.push(nodes.len() - 1);
        k = k + 1;
    }
    assert(children@.subrange(0, children@.len() as int) =~= children@);
    let ghost before = nodes@;
    nodes.push(TreeNode { kind, start, end: cur, children: idx, error: None });
    assert(nodes@.subrange(0, first.len() as int) =~= before.subrange(0, first.len() as int));
    assert forall|i: int, j: int|
        0 <= i < nodes@.len() && 0 <= j < nodes@[i].children@.len() implies #[trigger] nodes@[i].children@[j]
        < i by {
        if i < before.len() {
            assert(nodes@[i] == before[i]);
        }
    }
    assert forall|i: int| first.len() <= i < nodes@.len() implies start <= #[trigger] nodes@[i].start
        <= nodes@[i].end <= cur by {
        if i < before.len() {
            assert(nodes@[i] == before[i]);
        }
    }
    cur
}

/// Parses `text` and copies the tree into an arena whose spans count
/// characters. The root is the last node; it spans the whole text, and every
/// node lies within the text.
pub fn parse_tree(text: &str) -> (r: SyntaxTree)
    ensures
        r.covers(text@.len()),
{
    let root = parse_markup(text);
    let n = text.unicode_len();
    let depth = if n < usize::MAX / 8 {
        4 * n + 64
    } else {
        usize::MAX
    };
    let mut nodes: Vec<TreeNode> = Vec::new();
    push_subtree(&root, 0, depth, &mut nodes);
    SyntaxTree { nodes }
}

} // verus!
