//! Inlay hints at the labels, references and line breaks among the root's
//! children.
use vstd::prelude::*;
use crate::text::{position_at, position_from_chars, text_chars, Position};
use crate::tree::{NodeKind, SyntaxTree, TreeNode};

verus! {

/// A hint shown inside the text.
#[derive(Clone, Debug)]
pub struct InlayHint {
    pub position: Position,
    pub label: String,
}

/// The hint for node `n`, as its position and label: a line break is
/// tagged `linebreak` where it ends; a label or reference is tagged `label`
/// or `reference` just after its first character.
pub open spec fn hint_of(t: Seq<char>, n: TreeNode) -> Option<(Position, Seq<char>)> {
    if n.start <= n.end && n.end <= t.len() {
        if n.kind == NodeKind::Linebreak {
            Some((position_at(t, n.end as int), "linebreak"@))
        } else if n.kind == NodeKind::Label || n.kind == NodeKind::Ref {
            let p = position_at(t, n.start as int);
            Some(
                (
                    Position {
                        line: p.line,
                        character: if p.character < usize::MAX {
                            (p.character + 1) as usize
                        } else {
                            p.character
                        },
                    },
                    if n.kind == NodeKind::Label {
                        "label"@
                    } else {
                        "reference"@
                    },
                ),
            )
        } else {
            None
        }
    } else {
        None
    }
}

/// The hints for the first `k` children of the root, in order.
pub open spec fn hints_upto(tree: SyntaxTree, t: Seq<char>, k: int) -> Seq<(Position, Seq<char>)>
    decreases k,
{
    if k <= 0 || tree.nodes@.len() == 0 {
        seq![]
    } else {
        let prev = hints_upto(tree, t, k - 1);
        let c = tree.nodes@[tree.root() as int].children@[k - 1];
        if c < tree.nodes@.len() {
            match hint_of(t, tree.nodes@[c as int]) {
                Some(h) => prev.push(h),
                None => prev,
            }
        } else {
            prev
        }
    }
}

/// The hints of a document, in document order.
pub open spec fn hints_of(tree: SyntaxTree, t: Seq<char>) -> Seq<(Position, Seq<char>)> {
    if tree.nodes@.len() == 0 {
        seq![]
    } else {
        hints_upto(tree, t, tree.nodes@[tree.root() as int].children@.len() as int)
    }
}

pub open spec fn hints_view(v: Seq<InlayHint>) -> Seq<(Position, Seq<char>)> {
    v.map_values(|h: InlayHint| (h.position, h.label@))
}

fn hint_at(t: &Vec<char>, n: &TreeNode) -> (r: Option<InlayHint>)
    ensures
        match hint_of(t@, *n) {
            Some(v) => r matches Some(h) && (h.position, h.label@) == v,
            None => r is None,
        },
{
    if n.start > n.end || n.end > t.len() {
        return None;
    }
    if n.kind == NodeKind::Linebreak {
        let p = match position_from_chars(t, n.end) {
            Some(p) => p,
            None => {
                return None;
            },
        };
        return Some(InlayHint { position: p, label: String::from_str("linebreak") });
    }
    if !(n.kind == NodeKind::Label || n.kind == NodeKind::Ref) {
        return None;
    }
    let p = match position_from_chars(t, n.start) {
        Some(p) => p,
        None => {
            return None;
        },
    };
    let character = if p.character < usize::MAX {
        p.character + 1
    } else {
        p.character
    };
    let label = if n.kind == NodeKind::Label {
        String::from_str("label")
    } else {
        String::from_str("reference")
    };
    Some(InlayHint { position: Position { line: p.line, character }, label })
}

/// One hint for each label, reference and line break among the root's
/// children, in document order.
pub fn inlay_hints(tree: &SyntaxTree, text: &str) -> (r: Vec<InlayHint>)
    ensures
        hints_view(r@) == hints_of(*tree, text@),
{
    let t = text_chars(text);
    let mut r: Vec<InlayHint> = Vec::new();
    if tree.nodes.len() == 0 {
        return r;
    }
    let root = tree.nodes.len() - 1;
    let n = tree.nodes[root].children.len();
    let mut k: usize = 0;
    while k < n
        invariant
            tree.nodes@.len() > 0,
            root == tree.root(),
            n == tree.nodes@[root as int].children@.len(),
            k <= n,
            t@ == text@,
            hints_view(r@) == hints_upto(*tree, t@, k as int),
        decreases n - k,
    {
        let c = tree.nodes[root].children[k];
        if c < tree.nodes.len() {
            match hint_at(&t, &tree.nodes[c]) {
                Some(h) => {
                    let ghost before = r@;
                    r.push(h);
                    assert(hints_view(r@) =~= hints_view(before).push((h.position, h.label@)));
                },
                None => {},
            }
        }
        k = k + 1;
    }
    r
}

} // verus!
