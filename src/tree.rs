//! The syntax tree of a document, held as an arena of nodes.
//!
//! Nodes refer to their children by index, and every child stands before its
//! parent in the arena, so the root is the last node. There are no parent
//! links: the chain of ancestors at a cursor is found by walking down from
//! the root. Spans are half-open ranges of character offsets into the text.
use vstd::prelude::*;

verus! {

/// The kinds of node that the analyses tell apart.
#[derive(Clone, Copy, Debug, PartialEq, Eq, Structural)]
pub enum NodeKind {
    Markup,
    FuncCall,
    Ident,
    Label,
    Ref,
    RefMarker,
    Linebreak,
    LineComment,
    BlockComment,
    ModuleImport,
    Error,
    Other,
}

/// A parser error recorded on an error node.
#[derive(Clone, Debug)]
pub struct ParseError {
    pub message: String,
    pub hints: Vec<String>,
}

/// One node of the arena.
#[derive(Clone, Debug)]
pub struct TreeNode {
    pub kind: NodeKind,
    /// First character offset of the node.
    pub start: usize,
    /// Character offset just past the node.
    pub end: usize,
    /// Indices of the children, in document order.
    pub children: Vec<usize>,
    /// The parser's error, on error nodes.
    pub error: Option<ParseError>,
}

/// A syntax tree; the root is the last node.
#[derive(Clone, Debug)]
pub struct SyntaxTree {
    pub nodes: Vec<TreeNode>,
}

/// The path `p` with the path `r` appended, if there is one.
pub open spec fn extend_path(p: Seq<usize>, r: Option<Seq<usize>>) -> Option<Seq<usize>> {
    match r {
        Some(q) => Some(p + q),
        None => None,
    }
}

impl SyntaxTree {
    /// Every child stands before its parent.
    pub open spec fn wf(self) -> bool {
        forall|i: int, j: int|
            0 <= i < self.nodes@.len() && 0 <= j < self.nodes@[i].children@.len()
                ==> #[trigger] self.nodes@[i].children@[j] < i
    }

    /// The tree of a text of `len` characters: well formed, its root (the
    /// last node) spanning `[0, len)`, and every node lying within the text.
    pub open spec fn covers(self, len: nat) -> bool {
        &&& self.wf()
        &&& self.nodes@.len() > 0
        &&& self.nodes@.last().start == 0
        &&& self.nodes@.last().end == len
        &&& forall|i: int|
            0 <= i < self.nodes@.len() ==> #[trigger] self.nodes@[i].start <= self.nodes@[i].end <= len
    }

    pub open spec fn root(self) -> usize {
        (self.nodes@.len() - 1) as usize
    }

    /// Whether the cursor goes into child number `k` of node `i`: it lies
    /// inside the child or at its end, or at the start of the last child.
    pub open spec fn enters(self, i: usize, k: int, cursor: usize) -> bool {
        let ch = self.nodes@[i as int].children@;
        let c = self.nodes@[ch[k] as int];
        (c.start < cursor && cursor <= c.end) || (c.start == cursor && k + 1 == ch.len())
    }

    /// The first child of `i`, from number `k` on, that the cursor goes into.
    pub open spec fn pick_from(self, i: usize, cursor: usize, k: int) -> Option<usize>
        decreases self.nodes@[i as int].children@.len() - k,
    {
        let ch = self.nodes@[i as int].children@;
        if k < 0 || k >= ch.len() {
            None
        } else if ch[k] < self.nodes@.len() && self.enters(i, k, cursor) {
            Some(ch[k])
        } else {
            self.pick_from(i, cursor, k + 1)
        }
    }

    /// The path from node `i` down to the leaf at `cursor`, where a cursor
    /// on a boundary belongs to the node that ends there.
    pub open spec fn path_from(self, i: usize, cursor: usize) -> Option<Seq<usize>>
        decreases i,
    {
        if i >= self.nodes@.len() {
            None
        } else if self.nodes@[i as int].children@.len() == 0 {
            if cursor <= self.nodes@[i as int].end {
                Some(seq![i])
            } else {
                None
            }
        } else {
            match self.pick_from(i, cursor, 0) {
                Some(c) => if c < i {
                    extend_path(seq![i], self.path_from(c, cursor))
                } else {
                    None
                },
                None => None,
            }
        }
    }

    /// The nodes from the root down to the leaf at `cursor`, outermost
    /// first; empty where there is no such leaf.
    pub open spec fn node_chain_of(self, cursor: usize) -> Seq<usize> {
        if self.nodes@.len() == 0 {
            seq![]
        } else {
            match self.path_from(self.root(), cursor) {
                Some(p) => p,
                None => seq![],
            }
        }
    }

    /// The kinds along `node_chain_of`.
    pub open spec fn kind_chain_of(self, cursor: usize) -> Seq<NodeKind> {
        self.node_chain_of(cursor).map_values(|i: usize| self.nodes@[i as int].kind)
    }

    /// Node `i` followed by all its descendants, in document order.
    pub open spec fn subtree(self, i: usize) -> Seq<usize>
        decreases i, 1nat, 0nat,
    {
        if i < self.nodes@.len() {
            seq![i] + self.subtrees_from(i, 0)
        } else {
            seq![]
        }
    }

    /// The subtrees of the children of `i` from number `k` on, in order.
    pub open spec fn subtrees_from(self, i: usize, k: nat) -> Seq<usize>
        decreases i, 0nat, self.nodes@[i as int].children@.len() - k,
    {
        if i < self.nodes@.len() && k < self.nodes@[i as int].children@.len() {
            let c = self.nodes@[i as int].children@[k as int];
            if c < i {
                self.subtree(c) + self.subtrees_from(i, k + 1)
            } else {
                self.subtrees_from(i, k + 1)
            }
        } else {
            seq![]
        }
    }

    /// The child of node `i` that the cursor goes into, if any.
    pub(crate) fn pick_child(&self, i: usize, cursor: usize) -> (r: Option<usize>)
        requires
            i < self.nodes@.len(),
        ensures
            r == self.pick_from(i, cursor, 0),
    {
        let ch = &self.nodes[i].children;
        let n = ch.len();
        let mut k: usize = 0;
        while k < n
            invariant
                i < self.nodes@.len(),
                ch == &self.nodes@[i as int].children,
                n == ch@.len(),
                k <= n,
                self.pick_from(i, cursor, 0) == self.pick_from(i, cursor, k as int),
            decreases n - k,
        {
            let c = ch[k];
            if c < self.nodes.len() {
                let s = self.nodes[c].start;
                let e = self.nodes[c].end;
                if (s < cursor && cursor <= e) || (s == cursor && k + 1 == n) {
                    return Some(c);
                }
            }
            k = k + 1;
        }
        None
    }

    proof fn lemma_path_in_bounds(self, i: usize, cursor: usize)
        requires
            self.path_from(i, cursor) is Some,
        ensures
            forall|k: int|
                0 <= k < self.path_from(i, cursor)->0.len() ==> #[trigger] self.path_from(
                    i,
                    cursor,
                )->0[k] < self.nodes@.len(),
        decreases i,
    {
        if self.nodes@[i as int].children@.len() != 0 {
            let c = self.pick_from(i, cursor, 0)->0;
            self.lemma_path_in_bounds(c, cursor);
            let q = self.path_from(c, cursor)->0;
            assert forall|k: int| 0 <= k < (seq![i] + q).len() implies (seq![i] + q)[k]
                < self.nodes@.len() by {
                if k > 0 {
                    assert((seq![i] + q)[k] == q[k - 1]);
                }
            }
        }
    }

    pub(crate) proof fn lemma_chain_in_bounds(self, cursor: usize)
        ensures
            forall|k: int|
                0 <= k < self.node_chain_of(cursor).len() ==> #[trigger] self.node_chain_of(
                    cursor,
                )[k] < self.nodes@.len(),
    {
        if self.nodes@.len() > 0 && self.path_from(self.root(), cursor) is Some {
            self.lemma_path_in_bounds(self.root(), cursor);
        }
    }

    /// Appends node `i` and its descendants in document order.
    fn collect_subtree(&self, i: usize, out: &mut Vec<usize>)
        requires
            i < self.nodes@.len(),
        ensures
            final(out)@ == old(out)@ + self.subtree(i),
        decreases i,
    {
        out.push(i);
        let ghost start = old(out)@;
        let n = self.nodes[i].children.len();
        let mut k: usize = 0;
        while k < n
            invariant
                i < self.nodes@.len(),
                n == self.nodes@[i as int].children@.len(),
                k <= n,
                out@ + self.subtrees_from(i, k as nat) == start + self.subtree(i),
            decreases n - k,
        {
            let c = self.nodes[i].children[k];
            let ghost before = out@;
            if c < i {
                self.collect_subtree(c, out);
                assert(before + self.subtrees_from(i, k as nat) =~= out@ + self.subtrees_from(
                    i,
                    (k + 1) as nat,
                ));
            }
            k = k + 1;
        }
        assert(self.subtrees_from(i, n as nat) =~= seq![]);
        assert(out@ + seq![] =~= out@);
    }

    /// All descendants of node `i`, in document order (the node itself not
    /// included). Each call walks the tree afresh.
    pub fn preorder_descendants(&self, i: usize) -> (r: Vec<usize>)
        requires
            i < self.nodes@.len(),
        ensures
            r@ == self.subtrees_from(i, 0),
    {
        let mut out: Vec<usize> = Vec::new();
        self.collect_subtree(i, &mut out);
        assert(out@ =~= seq![i] + self.subtrees_from(i, 0));
        out.remove(0);
        assert(out@ =~= self.subtrees_from(i, 0));
        out
    }
}

/// The nodes from the root down to the leaf at `cursor`, outermost
/// first. At a boundary between two nodes the cursor belongs to the one
/// that ends there, so typing right after a token stays in its context.
/// Empty where no leaf holds the cursor.
pub fn node_walker(cursor: usize, ast: &SyntaxTree) -> (r: Vec<usize>)
    ensures
        r@ == ast.node_chain_of(cursor),
{
    let mut path: Vec<usize> = Vec::new();
    if ast.nodes.len() == 0 {
        return path;
    }
    let mut cur: usize = ast.nodes.len() - 1;
    loop
        invariant
            cur < ast.nodes@.len(),
            ast.nodes@.len() > 0,
            ast.path_from(ast.root(), cursor) == extend_path(
                path@,
                ast.path_from(cur, cursor),
            ),
        decreases cur,
    {
        if ast.nodes[cur].children.len() == 0 {
            if cursor <= ast.nodes[cur].end {
                path.push(cur);
                return path;
            }
            return Vec::new();
        }
        match ast.pick_child(cur, cursor) {
            Some(c) => {
                if c >= cur {
                    return Vec::new();
                }
                proof {
                    assert(path@.push(cur) =~= path@ + seq![cur]);
                    match ast.path_from(c, cursor) {
                        Some(q) => {
                            assert(path@ + (seq![cur] + q) =~= path@.push(cur) + q);
                        },
                        None => {},
                    }
                }
                path.push(cur);
                cur = c;
            },
            None => {
                return Vec::new();
            },
        }
    }
}

/// The kinds of the nodes from the root down to the leaf at `cursor`,
/// outermost first, as `node_walker` finds them.
pub fn kind_walker(cursor: usize, ast: &SyntaxTree) -> (r: Vec<NodeKind>)
    ensures
        r@ == ast.kind_chain_of(cursor),
{
    let chain = node_walker(cursor, ast);
    let mut r: Vec<NodeKind> = Vec::new();
    let mut k: usize = 0;
    while k < chain.len()
        invariant
            k <= chain@.len(),
            chain@ == ast.node_chain_of(cursor),
            r@ =~= chain@.subrange(0, k as int).map_values(
                |i: usize| ast.nodes@[i as int].kind,
            ),
        decreases chain@.len() - k,
    {
        proof {
            ast.lemma_chain_in_bounds(cursor);
        }
        r.push(ast.nodes[chain[k]].kind);
        k = k + 1;
        assert(r@ =~= chain@.subrange(0, k as int).map_values(
            |i: usize| ast.nodes@[i as int].kind,
        ));
    }
    assert(chain@.subrange(0, chain@.len() as int) =~= chain@);
    r
}

/// A chain of kinds depends on the tree and the cursor alone: two results
/// for the same tree and cursor are the same sequence.
pub proof fn lemma_kind_chain_deterministic(
    t1: SyntaxTree,
    t2: SyntaxTree,
    cursor: usize,
    r1: Seq<NodeKind>,
    r2: Seq<NodeKind>,
)
    requires
        t1 == t2,
        r1 == t1.kind_chain_of(cursor),
        r2 == t2.kind_chain_of(cursor),
    ensures
        r1 == r2,
{
}

} // verus!
