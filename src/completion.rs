//! What completion and hover offer at a cursor, and the snippets they draw
//! on.
use vstd::prelude::*;
use crate::text::{clamp_usize, offset_of, position_to_offset, text_chars, Position};
use crate::tree::{kind_walker, node_walker, NodeKind, SyntaxTree};

verus! {

/// A completion snippet: its label, its documentation and the text it
/// inserts.
#[derive(Clone, Debug, PartialEq, Eq)]
pub struct SnippetMaker {
    pub label: String,
    pub documentation: String,
    pub insert_text: String,
}

impl SnippetMaker {
    pub fn new(label: String, details: String, insert_text: String) -> (r: Self)
        ensures
            r.label == label,
            r.documentation == details,
            r.insert_text == insert_text,
    {
        Self { label, documentation: details, insert_text }
    }
}

/// A snippet as a user writes it in a snippet file.
#[derive(Clone, Debug, PartialEq, Eq)]
pub struct UserSnippet {
    pub label: String,
    pub details: String,
    pub insert_text: String,
}

/// The user's snippets as completion snippets, one for one and in order.
pub fn snips_from_yaml(user_snippets: Option<Vec<UserSnippet>>) -> (r: Option<Vec<SnippetMaker>>)
    ensures
        match user_snippets {
            None => r is None,
            Some(u) => r matches Some(v) && v@.len() == u@.len() && forall|i: int|
                0 <= i < u@.len() ==> (#[trigger] v@[i]).label == u@[i].label
                    && v@[i].documentation == u@[i].details && v@[i].insert_text
                    == u@[i].insert_text,
        },
{
    match user_snippets {
        None => None,
        Some(u) => {
            let mut v: Vec<SnippetMaker> = Vec::new();
            let mut k: usize = 0;
            while k < u.len()
                invariant
                    k <= u@.len(),
                    v@.len() == k,
                    forall|i: int|
                        0 <= i < k ==> (#[trigger] v@[i]).label == u@[i].label
                            && v@[i].documentation == u@[i].details && v@[i].insert_text
                            == u@[i].insert_text,
                decreases u@.len() - k,
            {
                let s = &u[k];
                v.push(
                    SnippetMaker {
                        label: s.label.clone(),
                        documentation: s.details.clone(),
                        insert_text: s.insert_text.clone(),
                    },
                );
                k = k + 1;
            }
            Some(v)
        },
    }
}

/// The snippets for `set` rules.
pub fn snips_set_items() -> (r: Vec<SnippetMaker>)
    ensures
        r@.len() == 2,
        r@[0].label@ == "set_par"@,
        r@[0].documentation@ == "Insert current date"@,
        r@[0].insert_text@
            == "#set par(\n  leading: 0.65em,\n  first-line-indent: 1em,\n  spacing: 1.2em,\n  justify: true,\n)"@,
        r@[1].label@ == "set_par_line"@,
        r@[1].documentation@ == "Insert current date"@,
        r@[1].insert_text@ == "#set par.line(numbering: \"1\")"@,
{
    let mut r: Vec<SnippetMaker> = Vec::new();
    r.push(
        SnippetMaker {
            label: String::from_str("set_par"),
            documentation: String::from_str("Insert current date"),
            insert_text: String::from_str(
                "#set par(\n  leading: 0.65em,\n  first-line-indent: 1em,\n  spacing: 1.2em,\n  justify: true,\n)",
            ),
        },
    );
    r.push(
        SnippetMaker {
            label: String::from_str("set_par_line"),
            documentation: String::from_str("Insert current date"),
            insert_text: String::from_str("#set par.line(numbering: \"1\")"),
        },
    );
    r
}

/// A moment, each part written out as it is to be inserted.
#[derive(Clone, Debug)]
pub struct DateTimeParts {
    pub year: String,
    pub month: String,
    pub day: String,
    pub hour: String,
    pub minute: String,
    pub second: String,
}

pub open spec fn date_text(p: DateTimeParts) -> Seq<char> {
    "#datetime(\n  year: "@ + p.year@ + ",\n  month: "@ + p.month@ + ",\n  day: "@ + p.day@
        + ",\n).display()"@
}

pub open spec fn time_text(p: DateTimeParts) -> Seq<char> {
    "#datetime(\n  hour: "@ + p.hour@ + ",\n  minute: "@ + p.minute@ + ",\n  second: "@ + p.second@
        + ",\n).display()"@
}

pub open spec fn datetime_text(p: DateTimeParts) -> Seq<char> {
    "#datetime(\n  year: "@ + p.year@ + ",\n  month: "@ + p.month@ + ",\n  day: "@ + p.day@
        + ",\n  hour: "@ + p.hour@ + ",\n  minute: "@ + p.minute@ + ",\n  second: "@ + p.second@
        + ",\n).display()"@
}

/// The snippets that insert the moment `now`: its date, its time, and both.
pub fn snips_time(now: &DateTimeParts) -> (r: Vec<SnippetMaker>)
    ensures
        r@.len() == 3,
        r@[0].label@ == "date"@,
        r@[0].documentation@ == "Insert current date"@,
        r@[0].insert_text@ == date_text(*now),
        r@[1].label@ == "time"@,
        r@[1].documentation@ == "Insert current time"@,
        r@[1].insert_text@ == time_text(*now),
        r@[2].label@ == "datetime"@,
        r@[2].documentation@ == "Insert current date and time"@,
        r@[2].insert_text@ == datetime_text(*now),
{
    let mut date = String::from_str("#datetime(\n  year: ");
    date.append(now.year.as_str());
    date.append(",\n  month: ");
    date.append(now.month.as_str());
    date.append(",\n  day: ");
    date.append(now.day.as_str());
    date.append(",\n).display()");
    let mut time = String::from_str("#datetime(\n  hour: ");
    time.append(now.hour.as_str());
    time.append(",\n  minute: ");
    time.append(now.minute.as_str());
    time.append(",\n  second: ");
    time.append(now.second.as_str());
    time.append(",\n).display()");
    let mut both = String::from_str("#datetime(\n  year: ");
    both.append(now.year.as_str());
    both.append(",\n  month: ");
    both.append(now.month.as_str());
    both.append(",\n  day: ");
    both.append(now.day.as_str());
    both.append(",\n  hour: ");
    both.append(now.hour.as_str());
    both.append(",\n  minute: ");
    both.append(now.minute.as_str());
    both.append(",\n  second: ");
    both.append(now.second.as_str());
    both.append(",\n).display()");
    let mut r: Vec<SnippetMaker> = Vec::new();
    r.push(
        SnippetMaker {
            label: String::from_str("date"),
            documentation: String::from_str("Insert current date"),
            insert_text: date,
        },
    );
    r.push(
        SnippetMaker {
            label: String::from_str("time"),
            documentation: String::from_str("Insert current time"),
            insert_text: time,
        },
    );
    r.push(
        SnippetMaker {
            label: String::from_str("datetime"),
            documentation: String::from_str("Insert current date and time"),
            insert_text: both,
        },
    );
    r
}

/// The label of the heading completion for `level`: `h1` to `h6`.
pub open spec fn heading_label(level: int) -> Seq<char> {
    seq!['h'] + "123456"@.subrange(level - 1, level)
}

/// The heading marker of `level`: that many `=`.
pub open spec fn heading_marker(level: int) -> Seq<char> {
    Seq::new(level as nat, |i: int| '=')
}

/// The heading completions, from `h1` (`=`) to `h6` (`======`), by level.
pub fn get_headers() -> (r: Vec<(String, String)>)
    ensures
        r@.len() == 6,
        forall|k: int|
            0 <= k < 6 ==> (#[trigger] r@[k]).0@ == heading_label(k + 1) && r@[k].1@
                == heading_marker(k + 1),
{
    let digits = "123456";
    proof {
        reveal_strlit("123456");
        reveal_strlit("=");
        reveal_strlit("h");
    }
    let mut r: Vec<(String, String)> = Vec::new();
    let mut item = String::from_str("=");
    let mut num: usize = 0;
    while num < 6
        invariant
            num <= 6,
            digits@ == "123456"@,
            digits@.len() == 6,
            "="@ == seq!['='],
            "h"@ == seq!['h'],
            item@ == heading_marker(num + 1),
            r@.len() == num,
            forall|k: int|
                0 <= k < num ==> (#[trigger] r@[k]).0@ == heading_label(k + 1) && r@[k].1@
                    == heading_marker(k + 1),
        decreases 6 - num,
    {
        let mut label = String::from_str("h");
        label.append(digits.substring_char(num, num + 1));
        r.push((label, item.clone()));
        item.append("=");
        assert(item@ =~= heading_marker(num + 2));
        num = num + 1;
    }
    r
}

/// Arguments that a function call leaves out; none are offered yet.
pub fn find_missing_args() {
}

/// What hover explains.
#[derive(Clone, Copy, Debug, PartialEq, Eq, Structural)]
pub enum HoverTopic {
    Label,
    Reference,
}

/// The topic for a chain of kinds: what its innermost node is.
pub open spec fn hover_topic_of(chain: Seq<NodeKind>) -> Option<HoverTopic> {
    if chain.len() == 0 {
        None
    } else if chain.last() == NodeKind::RefMarker {
        Some(HoverTopic::Reference)
    } else if chain.last() == NodeKind::Label {
        Some(HoverTopic::Label)
    } else {
        None
    }
}

/// What to explain on hover at `position`: a label or a reference, by the
/// innermost node there; nothing where the position is not in the text.
pub fn hover_topic(tree: &SyntaxTree, text: &str, position: Position) -> (r: Option<HoverTopic>)
    ensures
        match offset_of(text@, position.line as nat, position.character as nat) {
            Some(o) => r == hover_topic_of(tree.kind_chain_of(clamp_usize(o))),
            None => r is None,
        },
{
    let offset = match position_to_offset(text, position) {
        Some(o) => o,
        None => {
            return None;
        },
    };
    let chain = kind_walker(offset, tree);
    if chain.len() == 0 {
        None
    } else if chain[chain.len() - 1] == NodeKind::RefMarker {
        Some(HoverTopic::Reference)
    } else if chain[chain.len() - 1] == NodeKind::Label {
        Some(HoverTopic::Label)
    } else {
        None
    }
}

/// What the nodes around a cursor call for.
#[derive(Clone, Copy, Debug, PartialEq, Eq, Structural)]
pub struct CompletionContext {
    /// Some enclosing node is a comment: task markers.
    pub in_comment: bool,
    /// Some enclosing node is a block comment.
    pub in_block_comment: bool,
    /// Some enclosing node is a call of `text`: its parameters.
    pub in_text_call: bool,
}

/// Whether node `i` is a call of the function `text`: a function call with
/// an identifier child whose text is `text`.
pub open spec fn is_text_call(tree: SyntaxTree, t: Seq<char>, i: usize) -> bool {
    &&& i < tree.nodes@.len()
    &&& tree.nodes@[i as int].kind == NodeKind::FuncCall
    &&& exists|j: int|
        0 <= j < tree.nodes@[i as int].children@.len() && #[trigger] is_text_ident(
            tree,
            t,
            tree.nodes@[i as int].children@[j],
        )
}

/// Whether node `c` is the identifier `text`.
pub open spec fn is_text_ident(tree: SyntaxTree, t: Seq<char>, c: usize) -> bool {
    &&& c < tree.nodes@.len()
    &&& tree.nodes@[c as int].kind == NodeKind::Ident
    &&& tree.nodes@[c as int].start <= tree.nodes@[c as int].end <= t.len()
    &&& t.subrange(tree.nodes@[c as int].start as int, tree.nodes@[c as int].end as int) == "text"@
}

/// The context that a chain of nodes, from the root down, gives a cursor.
pub open spec fn context_of(tree: SyntaxTree, t: Seq<char>, chain: Seq<usize>) -> CompletionContext {
    CompletionContext {
        in_comment: exists|k: int|
            0 <= k < chain.len() && chain[k] < tree.nodes@.len() && (
            #[trigger] tree.nodes@[chain[k] as int]).kind == NodeKind::LineComment || 0 <= k
                < chain.len() && chain[k] < tree.nodes@.len() && tree.nodes@[chain[k] as int].kind
                == NodeKind::BlockComment,
        in_block_comment: exists|k: int|
            0 <= k < chain.len() && chain[k] < tree.nodes@.len() && (
            #[trigger] tree.nodes@[chain[k] as int]).kind == NodeKind::BlockComment,
        in_text_call: exists|k: int| 0 <= k < chain.len() && #[trigger] is_text_call(tree, t, chain[k]),
    }
}

fn text_call(tree: &SyntaxTree, t: &Vec<char>, i: usize) -> (r: bool)
    requires
        i < tree.nodes@.len(),
    ensures
        r == is_text_call(*tree, t@, i),
{
    if !(tree.nodes[i].kind == NodeKind::FuncCall) {
        return false;
    }
    proof {
        reveal_strlit("text");
    }
    let n = tree.nodes[i].children.len();
    let mut j: usize = 0;
    while j < n
        invariant
            i < tree.nodes@.len(),
            tree.nodes@[i as int].kind == NodeKind::FuncCall,
            n == tree.nodes@[i as int].children@.len(),
            j <= n,
            "text"@ == seq!['t', 'e', 'x', 't'],
            forall|q: int| 0 <= q < j ==> !#[trigger] is_text_ident(*tree, t@, tree.nodes@[i as int].children@[q]),
        decreases n - j,
    {
        let c = tree.nodes[i].children[j];
        if c < tree.nodes.len() {
            let node = &tree.nodes[c];
            if node.kind == NodeKind::Ident && node.start <= node.end && node.end <= t.len()
                && node.end - node.start == 4 && t[node.start] == 't' && t[node.start + 1] == 'e'
                && t[node.start + 2] == 'x' && t[node.start + 3] == 't' {
                assert(t@.subrange(node.start as int, node.end as int) =~= "text"@);
                assert(is_text_ident(*tree, t@, tree.nodes@[i as int].children@[j as int]));
                return true;
            }
            proof {
                if node.kind == NodeKind::Ident && node.start <= node.end && node.end <= t@.len()
                    && t@.subrange(node.start as int, node.end as int) == "text"@ {
                    assert(t@.subrange(node.start as int, node.end as int)[0] == 't');
                    assert(t@.subrange(node.start as int, node.end as int)[1] == 'e');
                    assert(t@.subrange(node.start as int, node.end as int)[2] == 'x');
                    assert(t@.subrange(node.start as int, node.end as int)[3] == 't');
                }
            }
        }
        j = j + 1;
    }
    false
}

/// What the nodes around `position` call for: comments, block comments and
/// calls of `text` anywhere from the root down to the leaf there; nothing
/// where the position is not in the text.
pub fn completion_context(tree: &SyntaxTree, text: &str, position: Position) -> (r: Option<
    CompletionContext,
>)
    ensures
        match offset_of(text@, position.line as nat, position.character as nat) {
            Some(o) => r == Some(context_of(*tree, text@, tree.node_chain_of(clamp_usize(o)))),
            None => r is None,
        },
{
    let offset = match position_to_offset(text, position) {
        Some(o) => o,
        None => {
            return None;
        },
    };
    let t = text_chars(text);
    let chain = node_walker(offset, tree);
    let ghost ch = chain@;
    let mut in_comment = false;
    let mut in_block_comment = false;
    let mut in_text_call = false;
    let mut k: usize = 0;
    while k < chain.len()
        invariant
            k <= chain@.len(),
            ch == chain@,
            t@ == text@,
            in_comment == exists|q: int|
                0 <= q < k && ch[q] < tree.nodes@.len() && (
                #[trigger] tree.nodes@[ch[q] as int]).kind == NodeKind::LineComment || 0 <= q < k
                    && ch[q] < tree.nodes@.len() && tree.nodes@[ch[q] as int].kind
                    == NodeKind::BlockComment,
            in_block_comment == exists|q: int|
                0 <= q < k && ch[q] < tree.nodes@.len() && (
                #[trigger] tree.nodes@[ch[q] as int]).kind == NodeKind::BlockComment,
            in_text_call == exists|q: int| 0 <= q < k && #[trigger] is_text_call(*tree, t@, ch[q]),
        decreases chain@.len() - k,
    {
        let i = chain[k];
        if i < tree.nodes.len() {
            let kind = tree.nodes[i].kind;
            if kind == NodeKind::LineComment || kind == NodeKind::BlockComment {
                in_comment = true;
            }
            if kind == NodeKind::BlockComment {
                in_block_comment = true;
            }
            if text_call(tree, &t, i) {
                in_text_call = true;
            }
        }
        k = k + 1;
    }
    Some(CompletionContext { in_comment, in_block_comment, in_text_call })
}

/// The decimal digit of `d`, for `1 <= d <= 7`.
pub open spec fn digit(d: int) -> Seq<char> {
    "1234567"@.subrange(d - 1, d)
}

/// The header row of a table with `m` columns: `Column1 | ... | Columnm`.
pub open spec fn table_header(m: int) -> Seq<char>
    decreases m,
{
    if m <= 1 {
        "Column"@ + digit(1)
    } else {
        table_header(m - 1) + " | "@ + "Column"@ + digit(m)
    }
}

/// The separator row of a table with `m` columns.
pub open spec fn table_separator(m: int) -> Seq<char>
    decreases m,
{
    if m <= 1 {
        "---------------"@
    } else {
        table_separator(m - 1) + " | "@ + "---------------"@
    }
}

/// Row `i` of a table with `m` columns: `Itemi.1 | ... | Itemi.m`.
pub open spec fn table_row(i: int, m: int) -> Seq<char>
    decreases m,
{
    if m <= 1 {
        "Item"@ + digit(i) + "."@ + digit(1)
    } else {
        table_row(i, m - 1) + " | "@ + "Item"@ + digit(i) + "."@ + digit(m)
    }
}

/// Rows `1..=n` of a table with `m` columns, joined as markdown lines.
pub open spec fn table_rows(n: int, m: int) -> Seq<char>
    decreases n,
{
    if n <= 1 {
        table_row(1, m)
    } else {
        table_rows(n - 1, m) + " |\n| "@ + table_row(n, m)
    }
}

/// The name of the `n` by `m` table completion: `tablenxm`.
pub open spec fn table_key(n: int, m: int) -> Seq<char> {
    "table"@ + digit(n) + "x"@ + digit(m)
}

/// The markdown of an `n` by `m` table.
pub open spec fn table_value(n: int, m: int) -> Seq<char> {
    "| "@ + table_header(m) + " |\n| "@ + table_separator(m) + " |\n| "@ + table_rows(n, m)
        + " |"@
}

fn number(d: usize) -> (r: String)
    requires
        1 <= d <= 7,
    ensures
        r@ == digit(d as int),
{
    let digits = "1234567";
    proof {
        reveal_strlit("1234567");
    }
    String::from_str(digits.substring_char(d - 1, d))
}

/// Row `i` of a table with `m` columns.
fn make_row(i: usize, m: usize) -> (r: String)
    requires
        1 <= i <= 7,
        1 <= m <= 7,
    ensures
        r@ == table_row(i as int, m as int),
{
    let mut row = String::from_str("Item");
    row.append(number(i).as_str());
    row.append(".");
    row.append(number(1).as_str());
    let mut j: usize = 2;
    while j <= m
        invariant
            2 <= j <= m + 1,
            1 <= i <= 7,
            m <= 7,
            row@ == table_row(i as int, j - 1),
        decreases m + 1 - j,
    {
        row.append(" | Item");
        row.append(number(i).as_str());
        row.append(".");
        row.append(number(j).as_str());
        assert(row@ =~= table_row(i as int, j - 1) + " | "@ + "Item"@ + digit(i as int) + "."@
            + digit(j as int)) by {
            reveal_strlit(" | Item");
            reveal_strlit(" | ");
            reveal_strlit("Item");
        }
        j = j + 1;
    }
    row
}

/// The markdown of an `n` by `m` table.
fn make_table(n: usize, m: usize) -> (r: String)
    requires
        1 <= n <= 7,
        1 <= m <= 7,
    ensures
        r@ == table_value(n as int, m as int),
{
    let mut header = String::from_str("Column");
    header.append(number(1).as_str());
    let mut separator = String::from_str("---------------");
    let mut j: usize = 2;
    while j <= m
        invariant
            2 <= j <= m + 1,
            m <= 7,
            header@ == table_header(j - 1),
            separator@ == table_separator(j - 1),
        decreases m + 1 - j,
    {
        header.append(" | Column");
        header.append(number(j).as_str());
        separator.append(" | ---------------");
        proof {
            reveal_strlit(" | Column");
            reveal_strlit(" | ");
            reveal_strlit("Column");
            reveal_strlit(" | ---------------");
            reveal_strlit("---------------");
        }
        assert(header@ =~= table_header(j - 1) + " | "@ + "Column"@ + digit(j as int));
        assert(separator@ =~= table_separator(j - 1) + " | "@ + "---------------"@);
        j = j + 1;
    }
    let mut rows = make_row(1, m);
    let mut i: usize = 2;
    while i <= n
        invariant
            2 <= i <= n + 1,
            n <= 7,
            1 <= m <= 7,
            rows@ == table_rows(i - 1, m as int),
        decreases n + 1 - i,
    {
        rows.append(" |\n| ");
        rows.append(make_row(i, m).as_str());
        i = i + 1;
    }
    let mut value = String::from_str("| ");
    value.append(header.as_str());
    value.append(" |\n| ");
    value.append(separator.as_str());
    value.append(" |\n| ");
    value.append(rows.as_str());
    value.append(" |");
    value
}

/// The table completions, from `table1x1` to `table7x7`: entry
/// `7 * (n - 1) + (m - 1)` is the table of `n` rows and `m` columns, with its
/// markdown.
pub fn table() -> (r: Vec<(String, String)>)
    ensures
        r@.len() == 49,
        forall|n: int, m: int|
            1 <= n <= 7 && 1 <= m <= 7 ==> (#[trigger] r@[7 * (n - 1) + (m - 1)]).0@
                == table_key(n, m) && r@[7 * (n - 1) + (m - 1)].1@ == table_value(n, m),
{
    let mut r: Vec<(String, String)> = Vec::new();
    let mut n: usize = 1;
    while n <= 7
        invariant
            1 <= n <= 8,
            r@.len() == 7 * (n - 1),
            forall|a: int, b: int|
                1 <= a < n && 1 <= b <= 7 ==> (#[trigger] r@[7 * (a - 1) + (b - 1)]).0@
                    == table_key(a, b) && r@[7 * (a - 1) + (b - 1)].1@ == table_value(a, b),
        decreases 8 - n,
    {
        let mut m: usize = 1;
        while m <= 7
            invariant
                1 <= n <= 7,
                1 <= m <= 8,
                r@.len() == 7 * (n - 1) + (m - 1),
                forall|a: int, b: int|
                    (1 <= a < n && 1 <= b <= 7) || (a == n && 1 <= b < m) ==> (#[trigger] r@[7 * (
                    a - 1) + (b - 1)]).0@ == table_key(a, b) && r@[7 * (a - 1) + (b - 1)].1@
                        == table_value(a, b),
            decreases 8 - m,
        {
            let mut key = String::from_str("table");
            key.append(number(n).as_str());
            key.append("x");
            key.append(number(m).as_str());
            let value = make_table(n, m);
            let ghost before = r@;
            r.push((key, value));
            proof {
                assert forall|a: int, b: int|
                    (1 <= a < n && 1 <= b <= 7) || (a == n && 1 <= b < m + 1) implies (
                    #[trigger] r@[7 * (a - 1) + (b - 1)]).0@ == table_key(a, b) && r@[7 * (a - 1)
                        + (b - 1)].1@ == table_value(a, b) by {
                    if a == n && b == m {
                        assert(7 * (a - 1) + (b - 1) == before.len());
                    } else {
                        assert(7 * (a - 1) + (b - 1) < before.len());
                        assert(r@[7 * (a - 1) + (b - 1)] == before[7 * (a - 1) + (b - 1)]);
                    }
                }
            }
            m = m + 1;
        }
        n = n + 1;
    }
    r
}

} // verus!
