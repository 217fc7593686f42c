//! Bracket balance: `()`, `{}` and `[]` are each tracked on a stack of their
//! own, in one left-to-right scan of the text.
use vstd::prelude::*;
use crate::text::{
    clamp_usize, lemma_position_step, newlines_before, position_at, position_of, text_chars,
    utf16_width,
};

verus! {

/// One of the three bracket pairs.
#[derive(Clone, Copy, Debug, PartialEq, Eq, Structural)]
pub enum Bracket {
    Paren,
    Brace,
    Square,
}

/// What is wrong at a delimiter.
#[derive(Clone, Copy, Debug, PartialEq, Eq, Structural)]
pub enum DelimiterIssue {
    /// A closer with no opener of its kind still open before it.
    UnmatchedClosing,
    /// An opener that no closer of its kind closed.
    Unclosed,
}

/// A delimiter problem at one character of the text.
#[derive(Clone, Copy, Debug, PartialEq, Eq, Structural)]
pub struct DelimiterDiagnostic {
    pub issue: DelimiterIssue,
    /// The offending character.
    pub delimiter: char,
    pub line: usize,
    /// The column, in UTF-16 code units.
    pub character: usize,
}

/// An opener still waiting for its closer.
#[derive(Clone, Copy, Debug, PartialEq, Eq, Structural)]
pub struct OpenDelimiter {
    pub bracket: Bracket,
    pub delimiter: char,
    pub line: usize,
    pub character: usize,
}

pub open spec fn opener_kind(c: char) -> Option<Bracket> {
    if c == '(' {
        Some(Bracket::Paren)
    } else if c == '{' {
        Some(Bracket::Brace)
    } else if c == '[' {
        Some(Bracket::Square)
    } else {
        None
    }
}

pub open spec fn closer_kind(c: char) -> Option<Bracket> {
    if c == ')' {
        Some(Bracket::Paren)
    } else if c == '}' {
        Some(Bracket::Brace)
    } else if c == ']' {
        Some(Bracket::Square)
    } else {
        None
    }
}

/// The index of the most recent opener of kind `b` among `open[0..k)`.
pub open spec fn last_open_of(open: Seq<OpenDelimiter>, b: Bracket, k: int) -> Option<int>
    decreases k,
{
    if k <= 0 {
        None
    } else if open[k - 1].bracket == b {
        Some(k - 1)
    } else {
        last_open_of(open, b, k - 1)
    }
}

/// The state of the scan: the openers still open, in the order they were
/// met, and the diagnostics for unmatched closers so far.
pub struct ScanState {
    pub open: Seq<OpenDelimiter>,
    pub found: Seq<DelimiterDiagnostic>,
}

/// One step of the scan on character `c` at `(line, col)`, the column in
/// UTF-16 code units.
pub open spec fn scan_step(st: ScanState, c: char, line: nat, col: usize) -> ScanState {
    if opener_kind(c) is Some {
        ScanState {
            open: st.open.push(
                OpenDelimiter {
                    bracket: opener_kind(c)->0,
                    delimiter: c,
                    line: line as usize,
                    character: col,
                },
            ),
            found: st.found,
        }
    } else if closer_kind(c) is Some {
        match last_open_of(st.open, closer_kind(c)->0, st.open.len() as int) {
            Some(j) => ScanState { open: st.open.remove(j), found: st.found },
            None => ScanState {
                open: st.open,
                found: st.found.push(
                    DelimiterDiagnostic {
                        issue: DelimiterIssue::UnmatchedClosing,
                        delimiter: c,
                        line: line as usize,
                        character: col,
                    },
                ),
            },
        }
    } else {
        st
    }
}

/// The state after the first `i` characters of `t`.
pub open spec fn scan(t: Seq<char>, i: int) -> ScanState
    decreases i,
{
    if i <= 0 {
        ScanState { open: Seq::empty(), found: Seq::empty() }
    } else {
        scan_step(
            scan(t, i - 1),
            t[i - 1],
            newlines_before(t, i - 1),
            position_at(t, i - 1).character,
        )
    }
}

pub open spec fn unclosed_of(o: OpenDelimiter) -> DelimiterDiagnostic {
    DelimiterDiagnostic {
        issue: DelimiterIssue::Unclosed,
        delimiter: o.delimiter,
        line: o.line,
        character: o.character,
    }
}

/// All delimiter diagnostics of `t`: the unmatched closers in text order,
/// then the openers left open, the most recently opened first.
pub open spec fn delimiter_diagnostics(t: Seq<char>) -> Seq<DelimiterDiagnostic> {
    let st = scan(t, t.len() as int);
    st.found + st.open.reverse().map_values(|o: OpenDelimiter| unclosed_of(o))
}

fn opener(c: char) -> (r: Option<Bracket>)
    ensures
        r == opener_kind(c),
{
    if c == '(' {
        Some(Bracket::Paren)
    } else if c == '{' {
        Some(Bracket::Brace)
    } else if c == '[' {
        Some(Bracket::Square)
    } else {
        None
    }
}

fn closer(c: char) -> (r: Option<Bracket>)
    ensures
        r == closer_kind(c),
{
    if c == ')' {
        Some(Bracket::Paren)
    } else if c == '}' {
        Some(Bracket::Brace)
    } else if c == ']' {
        Some(Bracket::Square)
    } else {
        None
    }
}

fn find_last_open(open: &Vec<OpenDelimiter>, b: Bracket) -> (r: Option<usize>)
    ensures
        r matches Some(j) ==> last_open_of(open@, b, open@.len() as int) == Some(j as int) && j
            < open@.len(),
        r is None ==> last_open_of(open@, b, open@.len() as int) is None,
{
    let mut k: usize = open.len();
    while k > 0
        invariant
            k <= open@.len(),
            last_open_of(open@, b, open@.len() as int) == last_open_of(open@, b, k as int),
        decreases k,
    {
        if open[k - 1].bracket == b {
            return Some(k - 1);
        }
        k = k - 1;
    }
    None
}

/// Checks that every `(`, `{` and `[` is closed by a later closer of its own
/// kind. Each kind has its own stack, so closers of one kind never match
/// openers of another.
pub fn check_unclosed_delimiters(content: &str) -> (r: Vec<DelimiterDiagnostic>)
    ensures
        r@ == delimiter_diagnostics(content@),
{
    let t = text_chars(content);
    let n = t.len();
    let mut open: Vec<OpenDelimiter> = Vec::new();
    let mut found: Vec<DelimiterDiagnostic> = Vec::new();
    let mut line: usize = 0;
    let mut col: usize = 0;
    let mut i: usize = 0;
    while i < n
        invariant
            i <= n == t@.len(),
            t@ == content@,
            line == newlines_before(t@, i as int),
            col == clamp_usize(position_of(t@, i as int).1 as int),
            line <= i,
            open@ == scan(t@, i as int).open,
            found@ == scan(t@, i as int).found,
        decreases n - i,
    {
        let c = t[i];
        assert(position_at(t@, i as int).character == col);
        match opener(c) {
            Some(b) => {
                open.push(OpenDelimiter { bracket: b, delimiter: c, line, character: col });
            },
            None => {
                match closer(c) {
                    Some(b) => {
                        match find_last_open(&open, b) {
                            Some(j) => {
                                open.remove(j);
                            },
                            None => {
                                found.push(
                                    DelimiterDiagnostic {
                                        issue: DelimiterIssue::UnmatchedClosing,
                                        delimiter: c,
                                        line,
                                        character: col,
                                    },
                                );
                            },
                        }
                    },
                    None => {},
                }
            },
        }
        proof {
            lemma_position_step(t@, i as int);
        }
        if c == '\n' {
            line = line + 1;
            col = 0;
        } else {
            col = col.saturating_add(utf16_width(c));
        }
        i = i + 1;
    }
    let ghost left = open@;
    let mut k: usize = open.len();
    let ghost found0 = found@;
    while k > 0
        invariant
            k <= left.len(),
            open@ == left,
            found@ == found0 + left.reverse().map_values(|o: OpenDelimiter| unclosed_of(o)).subrange(
                0,
                (left.len() - k) as int,
            ),
        decreases k,
    {
        let o = open[k - 1];
        found.push(
            DelimiterDiagnostic {
                issue: DelimiterIssue::Unclosed,
                delimiter: o.delimiter,
                line: o.line,
                character: o.character,
            },
        );
        k = k - 1;
        assert(found@ =~= found0 + left.reverse().map_values(|o: OpenDelimiter| unclosed_of(o)).subrange(
            0,
            (left.len() - k) as int,
        ));
    }
    assert(left.reverse().map_values(|o: OpenDelimiter| unclosed_of(o)).subrange(0, left.len() as int)
        =~= left.reverse().map_values(|o: OpenDelimiter| unclosed_of(o)));
    found
}

impl DelimiterDiagnostic {
    /// The diagnostic's message.
    pub fn message(&self) -> (r: String)
        ensures
            self.issue == DelimiterIssue::Unclosed ==> r@ == "unclosed delimiter"@,
            self.issue == DelimiterIssue::UnmatchedClosing ==> r@
                == "unmatched closing delimiter"@,
    {
        match self.issue {
            DelimiterIssue::Unclosed => String::from_str("unclosed delimiter"),
            DelimiterIssue::UnmatchedClosing => String::from_str("unmatched closing delimiter"),
        }
    }
}

} // verus!
