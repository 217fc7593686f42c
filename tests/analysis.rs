use std::collections::HashMap;

use typst_analyzer::bibliography::{get_bib_keys, BibError};
use typst_analyzer::completion::{
    completion_context, get_headers, table, hover_topic, snips_from_yaml, snips_set_items, snips_time,
    CompletionContext, DateTimeParts, HoverTopic, SnippetMaker, UserSnippet,
};
use typst_analyzer::delimiters::{check_unclosed_delimiters, DelimiterIssue};
use typst_analyzer::diagnostics::{document_diagnostics, syntax_error, Severity};
use typst_analyzer::formatting::{formatting_edit, handle_formatting};
use typst_analyzer::hints::inlay_hints;
use typst_analyzer::imports::{import_paths, missing_import_diagnostics};
use typst_analyzer::semantic::{ReferenceId, SemanticError, Span, SymbolId, SymbolTable, TypError};
use typst_analyzer::store::{Document, DocumentStore, TextEdit};
use typst_analyzer::symbols::{
    collect_symbols, find_missing_items, missing_labels,
    missing_label_error, provide_definitions, definitions, symbol_table, SymbolKind,
};
use typst_analyzer::syntax::parse_tree;
use typst_analyzer::text::{offset_to_position, position_to_offset, Position, Range};
use typst_analyzer::tree::{kind_walker, node_walker, NodeKind};

fn pos(line: usize, character: usize) -> Position {
    Position { line, character }
}

fn strings(v: &[&str]) -> Vec<String> {
    v.iter().map(|s| s.to_string()).collect()
}

#[test]
fn markup_header_test() {
    let mut expected = HashMap::new();
    expected.insert("h1".to_owned(), "=".to_owned());
    expected.insert("h2".to_owned(), "==".to_owned());
    expected.insert("h3".to_owned(), "===".to_owned());
    expected.insert("h4".to_owned(), "====".to_owned());
    expected.insert("h5".to_owned(), "=====".to_owned());
    expected.insert("h6".to_owned(), "======".to_owned());

    let result: HashMap<String, String> = get_headers().into_iter().collect();

    assert_eq!(
        result, expected,
        "The generated HashMap does not match the expected output."
    );
}

#[test]
fn headers_come_in_level_order() {
    let headers = get_headers();
    assert_eq!(headers[0], ("h1".to_owned(), "=".to_owned()));
    assert_eq!(headers[5], ("h6".to_owned(), "======".to_owned()));
}

#[test]
fn offsets_count_characters_per_line() {
    let text = "ab\ncde\n\nf";
    assert_eq!(position_to_offset(text, pos(0, 0)), Some(0));
    assert_eq!(position_to_offset(text, pos(0, 2)), Some(2));
    assert_eq!(position_to_offset(text, pos(1, 1)), Some(4));
    assert_eq!(position_to_offset(text, pos(2, 0)), Some(7));
    assert_eq!(position_to_offset(text, pos(3, 1)), Some(9));
    assert_eq!(position_to_offset(text, pos(1, 4)), Some(7));
    assert_eq!(position_to_offset("ab", pos(0, 5)), Some(5));
    assert_eq!(position_to_offset(text, pos(4, 0)), None);
    assert_eq!(position_to_offset("", pos(0, 0)), Some(0));
}

#[test]
fn columns_count_utf16_units() {
    let text = "😀(\nx";
    assert_eq!(position_to_offset(text, pos(0, 2)), Some(1));
    assert_eq!(position_to_offset(text, pos(0, 1)), Some(1));
    assert_eq!(offset_to_position(text, 1), Some(pos(0, 2)));
    assert_eq!(offset_to_position(text, 2), Some(pos(0, 3)));
    assert_eq!(offset_to_position(text, 3), Some(pos(1, 0)));
    let d = check_unclosed_delimiters("😀(");
    assert_eq!(d.len(), 1);
    assert_eq!((d[0].line, d[0].character), (0, 2));
}

#[test]
fn positions_round_trip_through_offsets() {
    let text = "= Title\nsome ünïcode text\n\nend 😀";
    for (line, len) in [(0usize, 7usize), (1, 17), (2, 0)] {
        for col in 0..=len {
            let o = position_to_offset(text, pos(line, col)).unwrap();
            assert_eq!(offset_to_position(text, o), Some(pos(line, col)));
        }
    }
    for (col, offset) in [(0usize, 27usize), (3, 30), (4, 31), (6, 32)] {
        assert_eq!(position_to_offset(text, pos(3, col)), Some(offset));
        assert_eq!(offset_to_position(text, offset), Some(pos(3, col)));
    }
    assert_eq!(offset_to_position(text, 100), None);
}

#[test]
fn symbol_table_keeps_kinds_apart_and_last_write() {
    let text = "= A <intro>\n@intro\n= B <intro>\n";
    let tree = parse_tree(text);
    let table = symbol_table(&tree, text);
    assert_eq!(table.len(), 2);
    assert_eq!(table[0].kind, SymbolKind::Reference);
    assert_eq!(table[1].kind, SymbolKind::Label);
    assert_eq!(table[1].name, "intro");
    assert_eq!(table[1].range, Range { start: pos(2, 4), end: pos(2, 11) });
}

#[test]
fn delimiter_single_opener_is_unclosed() {
    let d = check_unclosed_delimiters("(");
    assert_eq!(d.len(), 1);
    assert_eq!(d[0].issue, DelimiterIssue::Unclosed);
    assert_eq!(d[0].message(), "unclosed delimiter");
    assert_eq!((d[0].line, d[0].character), (0, 0));
}

#[test]
fn delimiter_single_closer_is_unmatched() {
    let d = check_unclosed_delimiters(")");
    assert_eq!(d.len(), 1);
    assert_eq!(d[0].issue, DelimiterIssue::UnmatchedClosing);
    assert_eq!(d[0].message(), "unmatched closing delimiter");
}

#[test]
fn delimiter_pair_is_balanced() {
    assert!(check_unclosed_delimiters("()").is_empty());
}

#[test]
fn delimiter_interleaved_kinds_match_per_kind() {
    // Each kind has a stack of its own, so `([)]` closes both pairs.
    assert!(check_unclosed_delimiters("([)]").is_empty());
}

#[test]
fn delimiter_unclosed_reported_last_opened_first() {
    let d = check_unclosed_delimiters("a(\n{[}");
    assert_eq!(d.len(), 2);
    assert_eq!(d[0].delimiter, '[');
    assert_eq!((d[0].line, d[0].character), (1, 1));
    assert_eq!(d[1].delimiter, '(');
    assert_eq!((d[1].line, d[1].character), (0, 1));
}

#[test]
fn delimiter_unmatched_closer_position() {
    let d = check_unclosed_delimiters("x\n  ]");
    assert_eq!(d.len(), 1);
    assert_eq!(d[0].issue, DelimiterIssue::UnmatchedClosing);
    assert_eq!((d[0].line, d[0].character), (1, 2));
}

#[test]
fn missing_is_references_minus_labels() {
    let references = strings(&["a", "c"]);
    let labels = strings(&["a", "b"]);
    assert_eq!(find_missing_items(&references, &labels), strings(&["c"]));
}

#[test]
fn missing_keeps_order_and_repeats() {
    let references = strings(&["z", "a", "z"]);
    let labels = strings(&["a"]);
    assert_eq!(find_missing_items(&references, &labels), strings(&["z", "z"]));
    assert!(find_missing_items(&Vec::new(), &labels).is_empty());
}

#[test]
fn kind_chain_is_deterministic() {
    let text = "= Heading <intro>\nSee @intro.";
    let tree = parse_tree(text);
    for offset in 0..text.chars().count() + 1 {
        assert_eq!(kind_walker(offset, &tree), kind_walker(offset, &tree));
    }
}

#[test]
fn kind_chain_runs_from_root_to_leaf() {
    let text = "See @intro.";
    let tree = parse_tree(text);
    let chain = kind_walker(6, &tree);
    assert_eq!(chain.first(), Some(&NodeKind::Markup));
    assert_eq!(chain.last(), Some(&NodeKind::RefMarker));
    assert!(chain.contains(&NodeKind::Ref));
    let nodes = node_walker(6, &tree);
    assert_eq!(nodes.len(), chain.len());
    assert_eq!(nodes[0], tree.nodes.len() - 1);
}

#[test]
fn preorder_descendants_cover_the_tree() {
    let text = "= Heading <intro>\nSee @intro.";
    let tree = parse_tree(text);
    let root = tree.nodes.len() - 1;
    let all = tree.preorder_descendants(root);
    assert_eq!(all.len(), tree.nodes.len() - 1);
    assert_eq!(all, tree.preorder_descendants(root));
    let starts: Vec<usize> = all.iter().map(|&i| tree.nodes[i].start).collect();
    let mut sorted = starts.clone();
    sorted.sort();
    assert_eq!(starts, sorted);
}

#[test]
fn scenario_label_and_reference_resolve() {
    let text = "= Heading <intro>\nSee @intro.";
    let tree = parse_tree(text);
    let symbols = collect_symbols(&tree, text);
    assert!(symbols
        .iter()
        .any(|s| s.kind == SymbolKind::Label && s.name == "intro"));
    assert!(symbols
        .iter()
        .any(|s| s.kind == SymbolKind::Reference && s.name == "intro"));
    assert!(missing_labels(&tree, text).is_empty());
    assert!(missing_label_error(&tree, text).is_empty());
    let label = Range { start: pos(0, 10), end: pos(0, 17) };
    let table = definitions(&tree, text);
    assert_eq!(table.len(), 1);
    assert_eq!(table[0].location, Range { start: pos(1, 4), end: pos(1, 10) });
    assert_eq!(table[0].response, label);
    assert_eq!(provide_definitions(&tree, text, pos(1, 5)), Some(label));
    assert_eq!(provide_definitions(&tree, text, pos(0, 3)), None);
}

#[test]
fn scenario_missing_label() {
    let text = "@missing";
    let tree = parse_tree(text);
    let diagnostics = document_diagnostics(&tree, text);
    assert_eq!(diagnostics.len(), 1);
    assert_eq!(diagnostics[0].message, "reference is missing label");
    assert_eq!(diagnostics[0].severity, Severity::Error);
    assert_eq!(
        diagnostics[0].range,
        Range { start: pos(0, 0), end: pos(0, 8) }
    );
    assert_eq!(missing_labels(&tree, text), strings(&["missing"]));
}

#[test]
fn scenario_edit_splices_and_reparses() {
    let mut doc = Document::open(
        "file:///doc.typ".to_owned(),
        "line zero\nline one\nsome text foo here\n".to_owned(),
    );
    let nodes_before = doc.tree.nodes.len();
    doc.apply_edits(&vec![TextEdit {
        range: Some(Range { start: pos(2, 10), end: pos(2, 13) }),
        new_text: "barbaz".to_owned(),
    }]);
    assert_eq!(doc.text, "line zero\nline one\nsome text barbaz here\n");
    assert_eq!(doc.version, 1);
    assert_eq!(position_to_offset(&doc.text, pos(2, 21)), Some(40));
    assert_eq!(position_to_offset(&doc.text, pos(3, 0)), Some(41));
    let root = doc.tree.nodes.last().unwrap();
    assert_eq!(root.start, 0);
    assert_eq!(root.end, doc.text.chars().count());
    assert!(doc.tree.nodes.len() >= nodes_before);
    assert_eq!(doc.tree.nodes.len(), parse_tree(&doc.text).nodes.len());
}

#[test]
fn no_op_edit_changes_only_the_version() {
    let mut doc = Document::open("file:///a.typ".to_owned(), "= A <a>\n@a".to_owned());
    let before = doc.tree.nodes.len();
    doc.apply_edits(&vec![TextEdit {
        range: Some(Range { start: pos(1, 1), end: pos(1, 1) }),
        new_text: String::new(),
    }]);
    assert_eq!(doc.text, "= A <a>\n@a");
    assert_eq!(doc.version, 1);
    assert_eq!(doc.tree.nodes.len(), before);
}

#[test]
fn edit_without_range_replaces_text() {
    let mut doc = Document::open("file:///a.typ".to_owned(), "old".to_owned());
    doc.apply_edits(&vec![TextEdit { range: None, new_text: "new (".to_owned() }]);
    assert_eq!(doc.text, "new (");
    let diagnostics = document_diagnostics(&doc.tree, &doc.text);
    assert!(diagnostics.iter().any(|d| d.message == "unclosed delimiter"));
}

#[test]
fn edit_with_bad_positions_falls_back() {
    let mut doc = Document::open("file:///a.typ".to_owned(), "abc\ndef".to_owned());
    doc.apply_edits(&vec![TextEdit {
        range: Some(Range { start: pos(9, 0), end: pos(1, 1) }),
        new_text: "X".to_owned(),
    }]);
    assert_eq!(doc.text, "Xef");
    doc.apply_edits(&vec![TextEdit {
        range: Some(Range { start: pos(0, 1), end: pos(7, 7) }),
        new_text: "Y".to_owned(),
    }]);
    assert_eq!(doc.text, "XY");
    assert_eq!(doc.version, 2);
}

#[test]
fn store_open_edit_close() {
    let mut store = DocumentStore::new();
    store.open("file:///a.typ".to_owned(), "hello".to_owned());
    store.open("file:///b.typ".to_owned(), "other".to_owned());
    store.apply_edit(
        "file:///a.typ",
        &vec![TextEdit {
            range: Some(Range { start: pos(0, 5), end: pos(0, 5) }),
            new_text: " world".to_owned(),
        }],
    );
    assert_eq!(store.get("file:///a.typ").unwrap().text, "hello world");
    assert_eq!(store.get("file:///a.typ").unwrap().version, 1);
    assert_eq!(store.get("file:///b.typ").unwrap().text, "other");
    store.apply_edit("file:///none.typ", &vec![]);
    assert!(store.get("file:///none.typ").is_none());
    store.open("file:///a.typ".to_owned(), "again".to_owned());
    assert_eq!(store.get("file:///a.typ").unwrap().version, 0);
    store.close("file:///a.typ");
    assert!(store.get("file:///a.typ").is_none());
    assert_eq!(store.get("file:///b.typ").unwrap().text, "other");
}

#[test]
fn syntax_error_reports_only_the_first() {
    let text = "#let = 1\n#let = 2\n";
    let tree = parse_tree(text);
    let errors = syntax_error(&tree, text);
    assert_eq!(errors.len(), 1);
    assert_eq!(errors[0].range.start.line, 0);
    assert!(syntax_error(&parse_tree("plain text"), "plain text").is_empty());
}

#[test]
fn hover_and_completion_follow_the_innermost_node() {
    let text = "= A <intro>\n@intro // note";
    let tree = parse_tree(text);
    assert_eq!(hover_topic(&tree, text, pos(1, 2)), Some(HoverTopic::Reference));
    assert_eq!(hover_topic(&tree, text, pos(0, 7)), Some(HoverTopic::Label));
    assert_eq!(hover_topic(&tree, text, pos(0, 1)), None);
    assert_eq!(hover_topic(&tree, text, pos(5, 0)), None);
    let plain = CompletionContext { in_comment: false, in_block_comment: false, in_text_call: false };
    assert_eq!(
        completion_context(&tree, text, pos(1, 12)),
        Some(CompletionContext { in_comment: true, ..plain })
    );
    assert_eq!(completion_context(&tree, text, pos(0, 1)), Some(plain));
    assert_eq!(completion_context(&tree, text, pos(9, 1)), None);
}

#[test]
fn completion_context_sees_text_calls_and_block_comments() {
    let text = "#text(font: \"x\")[hi]\n/* a */";
    let tree = parse_tree(text);
    let in_call = completion_context(&tree, text, pos(0, 8)).unwrap();
    assert!(in_call.in_text_call);
    assert!(!in_call.in_comment);
    let in_block = completion_context(&tree, text, pos(1, 3)).unwrap();
    assert!(in_block.in_comment && in_block.in_block_comment && !in_block.in_text_call);
    let other = "#emph(x)";
    let t2 = parse_tree(other);
    assert!(!completion_context(&t2, other, pos(0, 6)).unwrap().in_text_call);
}

#[test]
fn bibliography_keys_in_file_order() {
    let yaml = "zeta:\n  type: Book\n  title: Z\nalpha:\n  type: Article\n  title: A\n";
    assert_eq!(get_bib_keys(yaml), Ok(strings(&["zeta", "alpha"])));
    assert_eq!(get_bib_keys("- not: [a bibliography"), Err(BibError::Malformed));
}

#[test]
fn snippets_from_user_file_map_one_for_one() {
    let user = vec![UserSnippet {
        label: "custom_date".to_owned(),
        details: "Insert a custom date snippet".to_owned(),
        insert_text: "#date(year: 2025, month: 1, day: 1)".to_owned(),
    }];
    let made = snips_from_yaml(Some(user)).unwrap();
    assert_eq!(
        made,
        vec![SnippetMaker::new(
            "custom_date".to_owned(),
            "Insert a custom date snippet".to_owned(),
            "#date(year: 2025, month: 1, day: 1)".to_owned(),
        )]
    );
    assert_eq!(snips_from_yaml(None), None);
    assert_eq!(snips_set_items().len(), 2);
    assert_eq!(snips_set_items()[1].insert_text, "#set par.line(numbering: \"1\")");
}

#[test]
fn time_snippets_insert_the_given_moment() {
    let now = DateTimeParts {
        year: "2025".to_owned(),
        month: "01".to_owned(),
        day: "02".to_owned(),
        hour: "03".to_owned(),
        minute: "04".to_owned(),
        second: "05".to_owned(),
    };
    let s = snips_time(&now);
    assert_eq!(
        s[0].insert_text,
        "#datetime(\n  year: 2025,\n  month: 01,\n  day: 02,\n).display()"
    );
    assert_eq!(
        s[1].insert_text,
        "#datetime(\n  hour: 03,\n  minute: 04,\n  second: 05,\n).display()"
    );
    assert_eq!(s[2].label, "datetime");
}

#[test]
fn errors_carry_their_span_and_message() {
    let e = SemanticError::UndefinedVariable {
        name: "x".to_owned(),
        span: Span { start: 3, end: 4 },
    };
    assert_eq!(e.span(), Span { start: 3, end: 4 });
    assert_eq!(
        TypError::NonCriticalError("cfg").message(),
        "Failed to load optional file: cfg"
    );
}

#[test]
fn inlay_hints_follow_labels_references_and_line_breaks() {
    let text = "= A <intro>\n@intro \\\nend";
    let tree = parse_tree(text);
    let hints = inlay_hints(&tree, text);
    let got: Vec<(Position, &str)> = hints.iter().map(|h| (h.position, h.label.as_str())).collect();
    assert_eq!(
        got,
        vec![(pos(0, 5), "label"), (pos(1, 1), "reference"), (pos(1, 8), "linebreak")]
    );
}

#[test]
fn import_paths_and_missing_files() {
    let text = "#import \"chapters/one.typ\": a\nText\n#import \"two.typ\"\n";
    let tree = parse_tree(text);
    let imports = import_paths(&tree, text);
    let paths: Vec<&str> = imports.iter().map(|i| i.path.as_str()).collect();
    assert_eq!(paths, vec!["chapters/one.typ", "two.typ"]);
    assert_eq!(imports[1].range.start.line, 2);
    let diagnostics = missing_import_diagnostics(&imports, &vec![true, false]);
    assert_eq!(diagnostics.len(), 1);
    assert_eq!(diagnostics[0].message, "imported file does not exist");
    assert_eq!(diagnostics[0].range, imports[1].range);
}

#[test]
fn formatting_replaces_the_whole_document() {
    let text = "#let   x   =   1\nSome text";
    let edit = handle_formatting(text).unwrap();
    assert_eq!(edit.range, Range { start: pos(0, 0), end: pos(1, 9) });
    assert_ne!(edit.new_text, text);
    assert!(edit.new_text.starts_with("#let x = 1"));
    assert!(handle_formatting("#let = (").is_none());
    assert!(formatting_edit("ab", None).is_none());
    let e = formatting_edit("ab\nc", Some("x".to_owned())).unwrap();
    assert_eq!(e.range.end, pos(1, 1));
    assert_eq!(e.new_text, "x");
}

#[test]
fn table_completions_cover_one_to_seven() {
    let tables = table();
    assert_eq!(tables.len(), 49);
    assert_eq!(
        tables[0],
        (
            "table1x1".to_owned(),
            "| Column1 |\n| --------------- |\n| Item1.1 |".to_owned()
        )
    );
    assert_eq!(tables[9].0, "table2x3");
    assert_eq!(
        tables[9].1,
        "| Column1 | Column2 | Column3 |\n| --------------- | --------------- | --------------- |\n| Item1.1 | Item1.2 | Item1.3 |\n| Item2.1 | Item2.2 | Item2.3 |"
    );
    assert_eq!(tables[48].0, "table7x7");
}

#[test]
fn symbol_table_ids_and_lookups() {
    let mut t = SymbolTable::new();
    let a = t.add_symbol(Span { start: 0, end: 3 });
    let b = t.add_symbol(Span { start: 5, end: 8 });
    assert_eq!((a, b), (SymbolId(0), SymbolId(1)));
    let r0 = t.add_reference(Span { start: 10, end: 12 }, Some(b));
    let r1 = t.add_reference(Span { start: 13, end: 15 }, None);
    let r2 = t.add_reference(Span { start: 16, end: 18 }, Some(b));
    assert_eq!((r0, r1, r2), (ReferenceId(0), ReferenceId(1), ReferenceId(2)));
    assert_eq!(t.symbol_at(Span { start: 5, end: 8 }), Some(b));
    assert_eq!(t.symbol_at(Span { start: 1, end: 2 }), None);
    assert_eq!(t.reference_at(Span { start: 13, end: 15 }), Some(r1));
    assert_eq!(t.references_of(b), vec![r0, r2]);
    assert!(t.references_of(a).is_empty());
    assert_eq!(t.symbol_span(a), Some(Span { start: 0, end: 3 }));
    assert_eq!(t.symbol_span(SymbolId(7)), None);
    assert_eq!((t.symbol_count(), t.reference_count()), (2, 3));
}
