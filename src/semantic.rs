//! Errors and table entries of semantic analysis.
use vstd::prelude::*;

verus! {

/// A half-open range `[start, end)` of offsets in the source.
#[derive(Clone, Copy, Debug, PartialEq, Eq, Structural)]
pub struct Span {
    pub start: usize,
    pub end: usize,
}

/// An error found by semantic analysis, at a span of the source.
#[derive(Clone, Debug)]
pub enum SemanticError {
    UndefinedVariable { name: String, span: Span },
    ImConsistentArrayType { expect_type: String, actual_type: String, span: Span },
}

impl SemanticError {
    /// The span the error is about.
    pub fn span(&self) -> (r: Span)
        ensures
            match self {
                SemanticError::UndefinedVariable { span, .. } => r == *span,
                SemanticError::ImConsistentArrayType { span, .. } => r == *span,
            },
    {
        match self {
            SemanticError::UndefinedVariable { span, .. } => *span,
            SemanticError::ImConsistentArrayType { span, .. } => *span,
        }
    }
}

/// Identifies a symbol of a symbol table.
#[derive(Clone, Copy, Debug, PartialEq, Eq, Structural)]
pub struct SymbolId(pub u32);

/// Identifies a reference of a symbol table.
#[derive(Clone, Copy, Debug, PartialEq, Eq, Structural)]
pub struct ReferenceId(pub u32);

/// A use of a symbol, and the symbol it resolves to if it does.
#[derive(Clone, Copy, Debug, PartialEq, Eq, Structural)]
pub struct Reference {
    pub span: Span,
    pub symbol_id: Option<SymbolId>,
}

/// Errors of the server's request handlers.
#[derive(Clone, Debug)]
pub enum TypError<'a> {
    NotFound,
    Invalid,
    SyntaxError,
    NonCriticalError(&'a str),
    CriticalError(String),
}

impl<'a> TypError<'a> {
    /// The error's message.
    pub fn message(&self) -> (r: String)
        ensures
            *self == TypError::NotFound ==> r@ == "Error: this"@,
            *self == TypError::Invalid ==> r@ == "Error: 0"@,
            *self == TypError::SyntaxError ==> r@ == "Error: 0"@,
            self matches TypError::NonCriticalError(s) ==> r@ == "Failed to load optional file: "@
                + s@,
            self matches TypError::CriticalError(s) ==> r@ == "A critical error occurred: "@ + s@,
    {
        match self {
            TypError::NotFound => String::from_str("Error: this"),
            TypError::Invalid => String::from_str("Error: 0"),
            TypError::SyntaxError => String::from_str("Error: 0"),
            TypError::NonCriticalError(s) => {
                let mut m = String::from_str("Failed to load optional file: ");
                m.append(s);
                m
            },
            TypError::CriticalError(s) => {
                let mut m = String::from_str("A critical error occurred: ");
                m.append(s.as_str());
                m
            },
        }
    }
}

/// The last index `i < k` with `spans[i] == span`.
pub open spec fn last_with_span(spans: Seq<Span>, span: Span, k: int) -> Option<int>
    decreases k,
{
    if k <= 0 {
        None
    } else if spans[k - 1] == span {
        Some(k - 1)
    } else {
        last_with_span(spans, span, k - 1)
    }
}

/// The indices `i < k` of the references that resolve to `id`, in order.
pub open spec fn references_to(refs: Seq<Reference>, id: SymbolId, k: int) -> Seq<ReferenceId>
    decreases k,
{
    if k <= 0 {
        seq![]
    } else if refs[k - 1].symbol_id == Some(id) {
        references_to(refs, id, k - 1).push(ReferenceId((k - 1) as u32))
    } else {
        references_to(refs, id, k - 1)
    }
}

/// Symbols and references of a source file, each identified by the order in
/// which it was added. Where two symbols (or references) share a span, a
/// lookup by span finds the one added last.
pub struct SymbolTable {
    symbols: Vec<Span>,
    references: Vec<Reference>,
}

impl SymbolTable {
    /// The spans of the symbols, by id.
    pub closed spec fn symbol_spans(self) -> Seq<Span> {
        self.symbols@
    }

    /// The references, by id.
    pub closed spec fn reference_list(self) -> Seq<Reference> {
        self.references@
    }

    pub fn new() -> (r: SymbolTable)
        ensures
            r.symbol_spans().len() == 0,
            r.reference_list().len() == 0,
    {
        SymbolTable { symbols: Vec::new(), references: Vec::new() }
    }

    pub fn symbol_count(&self) -> (r: usize)
        ensures
            r == self.symbol_spans().len(),
    {
        self.symbols.len()
    }

    pub fn reference_count(&self) -> (r: usize)
        ensures
            r == self.reference_list().len(),
    {
        self.references.len()
    }

    /// Adds a symbol at `span`; its id is the number of symbols before it.
    pub fn add_symbol(&mut self, span: Span) -> (r: SymbolId)
        requires
            old(self).symbol_spans().len() < u32::MAX,
        ensures
            r.0 == old(self).symbol_spans().len(),
            final(self).symbol_spans() == old(self).symbol_spans().push(span),
            final(self).reference_list() == old(self).reference_list(),
    {
        let id = SymbolId(self.symbols.len() as u32);
        self.symbols.push(span);
        id
    }

    /// Adds a reference at `span`, resolved to `symbol_id` if given; its id
    /// is the number of references before it.
    pub fn add_reference(&mut self, span: Span, symbol_id: Option<SymbolId>) -> (r: ReferenceId)
        requires
            old(self).reference_list().len() < u32::MAX,
        ensures
            r.0 == old(self).reference_list().len(),
            final(self).reference_list() == old(self).reference_list().push(
                Reference { span, symbol_id },
            ),
            final(self).symbol_spans() == old(self).symbol_spans(),
    {
        let id = ReferenceId(self.references.len() as u32);
        self.references.push(Reference { span, symbol_id });
        id
    }

    /// The span of symbol `id`.
    pub fn symbol_span(&self, id: SymbolId) -> (r: Option<Span>)
        ensures
            (id.0 as int) < self.symbol_spans().len() ==> r == Some(
                self.symbol_spans()[id.0 as int],
            ),
            (id.0 as int) >= self.symbol_spans().len() ==> r is None,
    {
        if (id.0 as usize) < self.symbols.len() {
            Some(self.symbols[id.0 as usize])
        } else {
            None
        }
    }

    /// The symbol at `span`: of several, the one added last.
    pub fn symbol_at(&self, span: Span) -> (r: Option<SymbolId>)
        ensures
            match last_with_span(self.symbol_spans(), span, self.symbol_spans().len() as int) {
                Some(i) => r == Some(SymbolId(i as u32)),
                None => r is None,
            },
    {
        let mut k: usize = self.symbols.len();
        while k > 0
            invariant
                k <= self.symbols@.len(),
                last_with_span(self.symbols@, span, self.symbols@.len() as int) == last_with_span(
                    self.symbols@,
                    span,
                    k as int,
                ),
            decreases k,
        {
            if self.symbols[k - 1] == span {
                return Some(SymbolId((k - 1) as u32));
            }
            k = k - 1;
        }
        None
    }

    /// The reference at `span`: of several, the one added last.
    pub fn reference_at(&self, span: Span) -> (r: Option<ReferenceId>)
        ensures
            match last_with_span(
                self.reference_list().map_values(|x: Reference| x.span),
                span,
                self.reference_list().len() as int,
            ) {
                Some(i) => r == Some(ReferenceId(i as u32)),
                None => r is None,
            },
    {
        let ghost spans = self.references@.map_values(|x: Reference| x.span);
        let mut k: usize = self.references.len();
        while k > 0
            invariant
                k <= self.references@.len(),
                spans == self.references@.map_values(|x: Reference| x.span),
                last_with_span(spans, span, self.references@.len() as int) == last_with_span(
                    spans,
                    span,
                    k as int,
                ),
            decreases k,
        {
            if self.references[k - 1].span == span {
                return Some(ReferenceId((k - 1) as u32));
            }
            k = k - 1;
        }
        None
    }

    /// The references that resolve to symbol `id`, in the order they were
    /// added.
    pub fn references_of(&self, id: SymbolId) -> (r: Vec<ReferenceId>)
        requires
            self.reference_list().len() <= u32::MAX,
        ensures
            r@ == references_to(self.reference_list(), id, self.reference_list().len() as int),
    {
        let mut r: Vec<ReferenceId> = Vec::new();
        let mut k: usize = 0;
        while k < self.references.len()
            invariant
                k <= self.references@.len() <= u32::MAX,
                r@ == references_to(self.references@, id, k as int),
            decreases self.references@.len() - k,
        {
            if self.references[k].symbol_id == Some(id) {
                r.push(ReferenceId(k as u32));
            }
            k = k + 1;
        }
        r
    }
}

} // verus!
