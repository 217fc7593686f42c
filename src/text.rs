//! Line/column positions and character offsets into a document's text.
//!
//! Offsets count characters (Unicode scalar values). Columns count UTF-16
//! code units, the unit of the editor protocol, in both directions, so that
//! the two mappings invert each other. Lines are separated by `'\n'`; a text
//! with `k` newlines has `k + 1` lines, the last one possibly empty.
use vstd::prelude::*;

verus! {

/// A zero-based line/column position in a text.
#[derive(Clone, Copy, Debug, PartialEq, Eq, Structural)]
pub struct Position {
    pub line: usize,
    /// The column, in UTF-16 code units from the start of the line.
    pub character: usize,
}

/// A half-open range `[start, end)` of positions.
#[derive(Clone, Copy, Debug, PartialEq, Eq, Structural)]
pub struct Range {
    pub start: Position,
    pub end: Position,
}

/// Where line number `line` starts, scanning from offset `i`, which is taken
/// to be the start of line 0.
pub open spec fn line_start_from(t: Seq<char>, i: int, line: nat) -> Option<int>
    decreases t.len() - i,
{
    if line == 0 {
        Some(i)
    } else if i < 0 || i >= t.len() {
        None
    } else if t[i] == '\n' {
        line_start_from(t, i + 1, (line - 1) as nat)
    } else {
        line_start_from(t, i + 1, line)
    }
}

/// The offset at which line `line` of `t` starts, if `t` has that many lines.
pub open spec fn line_start(t: Seq<char>, line: nat) -> Option<int> {
    line_start_from(t, 0, line)
}

/// The offset of the first newline at or after `s`, or the text's length.
pub open spec fn line_end(t: Seq<char>, s: int) -> int
    decreases t.len() - s,
{
    if s < 0 || s >= t.len() {
        t.len() as int
    } else if t[s] == '\n' {
        s
    } else {
        line_end(t, s + 1)
    }
}

/// The number of UTF-16 code units of `c`.
pub open spec fn utf16_len(c: char) -> nat {
    if (c as u32) >= 0x10000 {
        2
    } else {
        1
    }
}

/// The number of UTF-16 code units of `t[a..b)`.
pub open spec fn width(t: Seq<char>, a: int, b: int) -> nat
    decreases b - a,
{
    if a < 0 || a >= b || a >= t.len() {
        0
    } else {
        utf16_len(t[a]) + width(t, a + 1, b)
    }
}

/// The offset reached from `i` by moving `units` UTF-16 code units forward;
/// a unit inside a character moves past it, and past the end of the text
/// each unit counts one.
pub open spec fn advance(t: Seq<char>, i: int, units: nat) -> int
    decreases units,
{
    if units == 0 {
        i
    } else if 0 <= i < t.len() {
        if utf16_len(t[i]) <= units {
            advance(t, i + 1, (units - utf16_len(t[i])) as nat)
        } else {
            advance(t, i + 1, 0)
        }
    } else {
        i + units
    }
}

/// The offset of `(line, col)`: the line's start moved `col` UTF-16 code
/// units forward; defined whenever the line exists.
pub open spec fn offset_of(t: Seq<char>, line: nat, col: nat) -> Option<int> {
    match line_start(t, line) {
        Some(s) => Some(advance(t, s, col)),
        None => None,
    }
}

/// Whether `col` falls on a character boundary within line `line`.
pub open spec fn on_boundary(t: Seq<char>, line: nat, col: nat) -> bool {
    line_start(t, line) matches Some(s) && exists|k: int|
        0 <= k && s + k <= line_end(t, s) && #[trigger] width(t, s, s + k) == col
}

/// `n` as a `usize`, the largest one where it does not fit.
pub open spec fn clamp_usize(n: int) -> usize {
    if n < 0 {
        0
    } else if n <= usize::MAX {
        n as usize
    } else {
        usize::MAX
    }
}

/// The number of newlines among the first `o` characters.
pub open spec fn newlines_before(t: Seq<char>, o: int) -> nat
    decreases o,
{
    if o <= 0 {
        0
    } else {
        newlines_before(t, o - 1) + if t[o - 1] == '\n' {
            1nat
        } else {
            0nat
        }
    }
}

/// The start of the line that holds offset `o`.
pub open spec fn line_start_before(t: Seq<char>, o: int) -> int
    decreases o,
{
    if o <= 0 {
        0
    } else if t[o - 1] == '\n' {
        o
    } else {
        line_start_before(t, o - 1)
    }
}

/// The line and column of offset `o`, for `0 <= o <= t.len()`.
pub open spec fn position_of(t: Seq<char>, o: int) -> (nat, nat) {
    (newlines_before(t, o), width(t, line_start_before(t, o), o))
}

/// `position_of` as a `Position`.
pub open spec fn position_at(t: Seq<char>, o: int) -> Position {
    Position { line: position_of(t, o).0 as usize, character: clamp_usize(position_of(t, o).1 as int) }
}

proof fn lemma_line_start_from(t: Seq<char>, i: int, line: nat)
    requires
        0 <= i <= t.len(),
        line_start_from(t, i, line) is Some,
    ensures
        ({
            let s = line_start_from(t, i, line)->0;
            &&& i <= s <= t.len()
            &&& newlines_before(t, s) == newlines_before(t, i) + line
            &&& line > 0 ==> t[s - 1] == '\n'
            &&& line == 0 ==> s == i
        }),
    decreases t.len() - i,
{
    if line > 0 {
        reveal_with_fuel(newlines_before, 2);
        if t[i] == '\n' {
            lemma_line_start_from(t, i + 1, (line - 1) as nat);
        } else {
            lemma_line_start_from(t, i + 1, line);
        }
    }
}

proof fn lemma_line_end(t: Seq<char>, s: int)
    requires
        0 <= s <= t.len(),
    ensures
        s <= line_end(t, s) <= t.len(),
        forall|k: int| s <= k < line_end(t, s) ==> t[k] != '\n',
        line_end(t, s) < t.len() ==> t[line_end(t, s)] == '\n',
    decreases t.len() - s,
{
    if s < t.len() && t[s] != '\n' {
        lemma_line_end(t, s + 1);
    }
}

/// Within one line, the line number stays that of the line's start and the
/// line start stays put.
proof fn lemma_within_line(t: Seq<char>, s: int, o: int)
    requires
        0 <= s <= o <= t.len(),
        s == 0 || t[s - 1] == '\n',
        forall|k: int| s <= k < o ==> t[k] != '\n',
    ensures
        newlines_before(t, o) == newlines_before(t, s),
        line_start_before(t, o) == s,
    decreases o - s,
{
    if o > s {
        lemma_within_line(t, s, o - 1);
    }
}

proof fn lemma_width_extend(t: Seq<char>, a: int, b: int)
    requires
        0 <= a <= b < t.len(),
    ensures
        width(t, a, b + 1) == width(t, a, b) + utf16_len(t[b]),
    decreases b - a,
{
    reveal_with_fuel(width, 2);
    if a < b {
        lemma_width_extend(t, a + 1, b);
    }
}

proof fn lemma_advance_width(t: Seq<char>, i: int, k: int)
    requires
        0 <= i,
        0 <= k,
        i + k <= t.len(),
    ensures
        advance(t, i, width(t, i, i + k)) == i + k,
    decreases k,
{
    if k > 0 {
        lemma_advance_width(t, i + 1, k - 1);
    }
}

/// Converting a line/column position on a character boundary of its line
/// to an offset and back gives the same position.
pub proof fn lemma_position_round_trip(t: Seq<char>, line: nat, col: nat)
    requires
        on_boundary(t, line, col),
    ensures
        offset_of(t, line, col) is Some,
        position_of(t, offset_of(t, line, col)->0) == (line, col),
{
    lemma_line_start_from(t, 0, line);
    let s = line_start(t, line)->0;
    lemma_line_end(t, s);
    let k = choose|k: int| 0 <= k && s + k <= line_end(t, s) && #[trigger] width(t, s, s + k) == col;
    lemma_advance_width(t, s, k);
    lemma_within_line(t, s, s + k);
}

/// The line an offset lies on starts within the text, no later than it.
pub proof fn lemma_line_start_before(t: Seq<char>, o: int)
    requires
        0 <= o <= t.len(),
    ensures
        0 <= line_start_before(t, o) <= o,
        newlines_before(t, o) <= o,
    decreases o,
{
    if o > 0 {
        lemma_line_start_before(t, o - 1);
    }
}

/// Moving one character forward within a line adds its width to the
/// column; a newline starts the next line at column 0.
pub proof fn lemma_position_step(t: Seq<char>, k: int)
    requires
        0 <= k < t.len(),
    ensures
        newlines_before(t, k + 1) == newlines_before(t, k) + if t[k] == '\n' {
            1nat
        } else {
            0nat
        },
        t[k] == '\n' ==> position_of(t, k + 1).1 == 0,
        t[k] != '\n' ==> position_of(t, k + 1).1 == position_of(t, k).1 + utf16_len(t[k]),
        t[k] != '\n' ==> line_start_before(t, k + 1) == line_start_before(t, k),
        t[k] == '\n' ==> line_start_before(t, k + 1) == k + 1,
{
    lemma_line_start_before(t, k);
    if t[k] != '\n' {
        lemma_width_extend(t, line_start_before(t, k), k);
    }
}

/// The characters of `s`, in order.
pub fn text_chars(s: &str) -> (r: Vec<char>)
    ensures
        r@ == s@,
{
    let mut r: Vec<char> = Vec::new();
    for c in it: s.chars()
        invariant
            r@ == it.seq().subrange(0, it.index() as int),
            it.seq() == s@,
    {
        r.push(c);
    }
    r
}

/// The UTF-16 width of `c`.
pub fn utf16_width(c: char) -> (r: usize)
    ensures
        r == utf16_len(c),
{
    if (c as u32) >= 0x10000 {
        2
    } else {
        1
    }
}

/// The offset of `position` in `t`: the start of its line moved forward by
/// its column in UTF-16 code units, even past the end of the line; `None`
/// when the line does not exist.
pub fn offset_from_chars(t: &Vec<char>, position: Position) -> (r: Option<usize>)
    ensures
        match offset_of(t@, position.line as nat, position.character as nat) {
            Some(o) => r == Some(clamp_usize(o)),
            None => r is None,
        },
{
    let n = t.len();
    let mut i: usize = 0;
    let mut line: usize = 0;
    while line < position.line
        invariant
            0 <= i <= n == t@.len(),
            line <= position.line,
            line_start(t@, position.line as nat) == line_start_from(
                t@,
                i as int,
                (position.line - line) as nat,
            ),
        decreases n - i,
    {
        if i >= n {
            return None;
        }
        if t[i] == '\n' {
            line = line + 1;
        }
        i = i + 1;
    }
    let mut j: usize = i;
    let mut units: usize = position.character;
    while units > 0 && j < n
        invariant
            i <= j <= n == t@.len(),
            advance(t@, i as int, position.character as nat) == advance(t@, j as int, units as nat),
        decreases units,
    {
        let w = utf16_width(t[j]);
        units = if w <= units {
            units - w
        } else {
            0
        };
        j = j + 1;
    }
    Some(j.saturating_add(units))
}

/// The offset of `position` in `text`: the start of its line moved forward
/// by its column in UTF-16 code units; `None` when the line does not exist.
pub fn position_to_offset(text: &str, position: Position) -> (r: Option<usize>)
    ensures
        match offset_of(text@, position.line as nat, position.character as nat) {
            Some(o) => r == Some(clamp_usize(o)),
            None => r is None,
        },
{
    let t = text_chars(text);
    offset_from_chars(&t, position)
}

/// The position of offset `offset` in `t`, its column in UTF-16 code units;
/// `None` past the end of the text.
pub fn position_from_chars(t: &Vec<char>, offset: usize) -> (r: Option<Position>)
    ensures
        r is Some <==> offset <= t@.len(),
        r matches Some(p) ==> p == position_at(t@, offset as int),
{
    if offset > t.len() {
        return None;
    }
    let mut k: usize = 0;
    let mut line: usize = 0;
    let mut col: usize = 0;
    while k < offset
        invariant
            k <= offset <= t@.len(),
            line == newlines_before(t@, k as int),
            line <= k,
            col == clamp_usize(position_of(t@, k as int).1 as int),
        decreases offset - k,
    {
        proof {
            lemma_position_step(t@, k as int);
        }
        if t[k] == '\n' {
            line = line + 1;
            col = 0;
        } else {
            col = col.saturating_add(utf16_width(t[k]));
        }
        k = k + 1;
    }
    proof {
        lemma_line_start_before(t@, offset as int);
    }
    Some(Position { line, character: col })
}

/// The position of offset `offset` in `text`, its column in UTF-16 code
/// units; `None` past the end of the text.
pub fn offset_to_position(text: &str, offset: usize) -> (r: Option<Position>)
    ensures
        r is Some <==> offset <= text@.len(),
        r matches Some(p) ==> p == position_at(text@, offset as int),
{
    let t = text_chars(text);
    position_from_chars(&t, offset)
}

} // verus!
