//! Open documents: each holds its text, the tree parsed from that text and
//! a version, and edits are applied to it in batches.
use vstd::prelude::*;
use crate::syntax::parse_tree;
use crate::text::{clamp_usize, offset_from_chars, offset_of, text_chars, Position, Range};
use crate::tree::SyntaxTree;
use dashmap::DashMap;

verus! {

/// One change to a document: the text in `range` is replaced by `new_text`,
/// or the whole text is when there is no range.
#[derive(Clone, Debug)]
pub struct TextEdit {
    pub range: Option<Range>,
    pub new_text: String,
}

/// An open document.
#[derive(Clone, Debug)]
pub struct Document {
    pub uri: String,
    pub text: String,
    pub tree: SyntaxTree,
    pub version: u64,
}

/// The offset of `p` in `t` where it lies within the text.
pub open spec fn offset_within(t: Seq<char>, p: Position) -> Option<int> {
    match offset_of(t, p.line as nat, p.character as nat) {
        Some(o) => if clamp_usize(o) <= t.len() {
            Some(clamp_usize(o) as int)
        } else {
            None
        },
        None => None,
    }
}

/// The offsets `[s, e)` that an edit with range `r` replaces in `t`. A
/// position whose line does not exist, or that lies past the end of the
/// text, falls back to the start (for `s`) or the end (for `e`) of the
/// text; a range whose end comes before its start replaces nothing.
pub open spec fn edit_span(t: Seq<char>, r: Range) -> (int, int) {
    let s = match offset_within(t, r.start) {
        Some(o) => o,
        None => 0,
    };
    let e = match offset_within(t, r.end) {
        Some(o) => o,
        None => t.len() as int,
    };
    if s <= e {
        (s, e)
    } else {
        (s, s)
    }
}

/// The text after one edit.
pub open spec fn apply_edit_to(t: Seq<char>, range: Option<Range>, new_text: Seq<char>) -> Seq<char> {
    match range {
        Some(r) => t.subrange(0, edit_span(t, r).0) + new_text + t.subrange(
            edit_span(t, r).1,
            t.len() as int,
        ),
        None => new_text,
    }
}

/// The text after the first `k` edits, applied in order.
pub open spec fn apply_edits_to(t: Seq<char>, edits: Seq<TextEdit>, k: int) -> Seq<char>
    decreases k,
{
    if k <= 0 {
        t
    } else {
        let prev = apply_edits_to(t, edits, k - 1);
        apply_edit_to(prev, edits[k - 1].range, edits[k - 1].new_text@)
    }
}

pub open spec fn next_version(v: u64) -> u64 {
    if v < u64::MAX {
        (v + 1) as u64
    } else {
        v
    }
}

fn offset_within_exec(t: &Vec<char>, p: Position) -> (r: Option<usize>)
    ensures
        match offset_within(t@, p) {
            Some(o) => r == Some(o as usize),
            None => r is None,
        },
{
    match offset_from_chars(t, p) {
        Some(o) => if o <= t.len() {
            Some(o)
        } else {
            None
        },
        None => None,
    }
}

fn edit_text(text: &String, edit: &TextEdit) -> (r: String)
    ensures
        r@ == apply_edit_to(text@, edit.range, edit.new_text@),
{
    match edit.range {
        None => edit.new_text.clone(),
        Some(range) => {
            let t = text_chars(text.as_str());
            let n = t.len();
            let s = match offset_within_exec(&t, range.start) {
                Some(o) => o,
                None => 0,
            };
            let e = match offset_within_exec(&t, range.end) {
                Some(o) => o,
                None => n,
            };
            let e = if s <= e {
                e
            } else {
                s
            };
            let mut out = String::from_str(text.as_str().substring_char(0, s));
            out.append(edit.new_text.as_str());
            out.append(text.as_str().substring_char(e, n));
            out
        },
    }
}

/// What applying `edits` to `before` makes of it: the uri stays, the text
/// is the edited text, the version is the next one, the tree covers the new
/// text, and where the text did not change neither does the tree.
pub open spec fn edits_applied(before: Document, after: Document, edits: Seq<TextEdit>) -> bool {
    &&& after.uri == before.uri
    &&& after.text@ == apply_edits_to(before.text@, edits, edits.len() as int)
    &&& after.version == next_version(before.version)
    &&& before.tree.covers(before.text@.len()) ==> after.tree.covers(after.text@.len())
    &&& after.text@ == before.text@ ==> after.tree == before.tree
}

impl Document {
    /// Opens a document at version 0, parsing its text.
    pub fn open(uri: String, text: String) -> (r: Document)
        ensures
            r.uri@ == uri@,
            r.text@ == text@,
            r.version == 0,
            r.tree.covers(r.text@.len()),
    {
        let tree = parse_tree(text.as_str());
        Document { uri, text, tree, version: 0 }
    }

    /// Applies `edits` in order, then parses the resulting text once and
    /// moves to the next version. Where the edits leave the text as it was,
    /// the tree already parsed from that text is kept.
    pub fn apply_edits(&mut self, edits: &Vec<TextEdit>)
        ensures
            edits_applied(*old(self), *final(self), edits@),
    {
        let mut text = self.text.clone();
        let mut k: usize = 0;
        while k < edits.len()
            invariant
                k <= edits@.len(),
                text@ == apply_edits_to(self.text@, edits@, k as int),
            decreases edits@.len() - k,
        {
            text = edit_text(&text, &edits[k]);
            k = k + 1;
        }
        if !(text == self.text) {
            self.tree = parse_tree(text.as_str());
        }
        assert(self.uri == old(self).uri);
        self.text = text;
        self.version = if self.version < u64::MAX {
            self.version + 1
        } else {
            self.version
        };
    }
}

/// A no-op edit (an empty range at a valid position, replaced by nothing)
/// leaves a document's text and tree as they were; only the version moves
/// on.
pub proof fn lemma_no_op_edit(before: Document, after: Document, edits: Seq<TextEdit>)
    requires
        edits.len() == 1,
        edits[0].range matches Some(r) && r.start == r.end && offset_within(before.text@, r.start)
            is Some,
        edits[0].new_text@.len() == 0,
        edits_applied(before, after, edits),
    ensures
        after.uri == before.uri,
        after.text@ == before.text@,
        after.tree == before.tree,
        after.version == next_version(before.version),
{
    let t = before.text@;
    let r = edits[0].range->0;
    let o = edit_span(t, r).0;
    assert(apply_edits_to(t, edits, 0) == t);
    assert(t.subrange(0, o) + edits[0].new_text@ + t.subrange(o, t.len() as int) =~= t);
}

/// `d` after `edits`, as `Document::apply_edits` leaves it.
pub fn edited_document(d: Document, edits: &Vec<TextEdit>) -> (r: Document)
    ensures
        edits_applied(d, r, edits@),
{
    let mut d = d;
    d.apply_edits(edits);
    d
}

#[verifier::external_type_specification]
#[verifier::external_body]
#[verifier::reject_recursive_types(K)]
#[verifier::reject_recursive_types(V)]
#[verifier::reject_recursive_types(S)]
pub struct ExDashMap<K, V, S>(DashMap<K, V, S>);

/// The documents a map holds, by uri.
pub uninterp spec fn stored_documents(m: DashMap<String, Document>) -> Map<Seq<char>, Document>;

/// Relies on `DashMap::new`: a map that holds nothing.
#[verifier::external_body]
fn empty_documents() -> (r: DashMap<String, Document>)
    ensures
        forall|u: Seq<char>| !(#[trigger] stored_documents(r).contains_key(u)),
{
    DashMap::new()
}

/// Relies on `DashMap::insert`: `doc` is stored under `uri`, in place of
/// what was stored there.
#[verifier::external_body]
fn insert_document(m: &mut DashMap<String, Document>, uri: String, doc: Document)
    ensures
        stored_documents(*final(m)) == stored_documents(*old(m)).insert(uri@, doc),
{
    m.insert(uri, doc);
}

/// Relies on `DashMap::remove`: nothing is stored under `uri` any more.
#[verifier::external_body]
fn remove_document(m: &mut DashMap<String, Document>, uri: &str)
    ensures
        stored_documents(*final(m)) == stored_documents(*old(m)).remove(uri@),
{
    m.remove(uri);
}

/// Relies on `DashMap::get` and the derived `Clone` of `Document`: a copy,
/// field for field, of the document stored under `uri`.
#[verifier::external_body]
fn copy_document(m: &DashMap<String, Document>, uri: &str) -> (r: Option<Document>)
    ensures
        r == (if stored_documents(*m).contains_key(uri@) {
            Some(stored_documents(*m)[uri@])
        } else {
            None
        }),
{
    m.get(uri).map(|d| d.value().clone())
}

/// Relies on `DashMap::alter`: the document stored under `uri`, if any, is
/// replaced by what `edited_document` makes of it; nothing else changes.
#[verifier::external_body]
fn edit_document(m: &mut DashMap<String, Document>, uri: &str, edits: &Vec<TextEdit>)
    ensures
        stored_documents(*final(m)).dom() == stored_documents(*old(m)).dom(),
        forall|u: Seq<char>|
            u != uri@ && stored_documents(*old(m)).contains_key(u) ==> #[trigger] stored_documents(
                *final(m),
            )[u] == stored_documents(*old(m))[u],
        stored_documents(*old(m)).contains_key(uri@) ==> edits_applied(
            stored_documents(*old(m))[uri@],
            stored_documents(*final(m))[uri@],
            edits@,
        ),
{
    m.alter(uri, |_, d| edited_document(d, edits));
}

/// The open documents, by uri.
pub struct DocumentStore {
    docs: DashMap<String, Document>,
}

impl DocumentStore {
    /// Each document is stored under its own uri, with a tree that covers
    /// its text.
    pub closed spec fn wf(self) -> bool {
        forall|u: Seq<char>|
            #[trigger] stored_documents(self.docs).contains_key(u) ==> stored_documents(
                self.docs,
            )[u].uri@ == u && stored_documents(self.docs)[u].tree.covers(
                stored_documents(self.docs)[u].text@.len(),
            )
    }

    /// The document open under `uri`, if any.
    pub closed spec fn doc(self, uri: Seq<char>) -> Option<Document> {
        if stored_documents(self.docs).contains_key(uri) {
            Some(stored_documents(self.docs)[uri])
        } else {
            None
        }
    }

    pub fn new() -> (r: DocumentStore)
        ensures
            r.wf(),
            forall|u: Seq<char>| r.doc(u) is None,
    {
        DocumentStore { docs: empty_documents() }
    }

    /// A copy of the document open under `uri`, as it stands now: later
    /// edits do not reach it.
    pub fn get(&self, uri: &str) -> (r: Option<Document>)
        ensures
            r == self.doc(uri@),
    {
        copy_document(&self.docs, uri)
    }

    /// Opens `uri` with `text` at version 0, replacing a document already
    /// open under that uri. Other documents are untouched.
    pub fn open(&mut self, uri: String, text: String)
        requires
            old(self).wf(),
        ensures
            final(self).wf(),
            final(self).doc(uri@) matches Some(d) && d.text@ == text@ && d.version == 0,
            forall|u: Seq<char>| u != uri@ ==> final(self).doc(u) == old(self).doc(u),
    {
        let key = uri.clone();
        let doc = Document::open(uri, text);
        insert_document(&mut self.docs, key, doc);
    }

    /// Applies `edits` to the document open under `uri`, which reparses it
    /// and moves it to its next version; an unknown uri changes nothing.
    pub fn apply_edit(&mut self, uri: &str, edits: &Vec<TextEdit>)
        requires
            old(self).wf(),
        ensures
            final(self).wf(),
            match old(self).doc(uri@) {
                Some(d) => final(self).doc(uri@) matches Some(n) && edits_applied(d, n, edits@),
                None => final(self).doc(uri@) is None,
            },
            forall|u: Seq<char>| u != uri@ ==> final(self).doc(u) == old(self).doc(u),
    {
        edit_document(&mut self.docs, uri, edits);
        proof {
            let before = stored_documents(old(self).docs);
            let after = stored_documents(self.docs);
            assert forall|u: Seq<char>| #[trigger] after.contains_key(u) implies after[u].uri@ == u
                && after[u].tree.covers(after[u].text@.len()) by {
                assert(before.contains_key(u));
            }
            assert forall|u: Seq<char>| u != uri@ implies self.doc(u) == old(self).doc(u) by {
                if before.contains_key(u) {
                    assert(after[u] == before[u]);
                } else {
                    assert(!after.contains_key(u));
                }
            }
        }
    }

    /// Closes the document open under `uri`, if any. Other documents are
    /// untouched.
    pub fn close(&mut self, uri: &str)
        requires
            old(self).wf(),
        ensures
            final(self).wf(),
            final(self).doc(uri@) is None,
            forall|u: Seq<char>| u != uri@ ==> final(self).doc(u) == old(self).doc(u),
    {
        remove_document(&mut self.docs, uri);
    }
}

} // verus!
