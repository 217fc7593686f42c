//! Whole-document formatting with typstyle.
use vstd::prelude::*;
use crate::text::{position_at, text_chars, position_from_chars, Position, Range};

verus! {

/// The text typstyle makes of `text` with its default style, or `None`
/// where it cannot format it.
pub uninterp spec fn formatted_text(text: Seq<char>) -> Option<Seq<char>>;

/// Relies on `typstyle_core::Typstyle::format_text` and `Formatter::render`
/// with the default configuration: a function of the text alone, failing
/// on text that does not parse.
#[verifier::external_body]
fn format_with_typstyle(text: &str) -> (r: Option<String>)
    ensures
        match formatted_text(text@) {
            Some(f) => r matches Some(s) && s@ == f,
            None => r is None,
        },
{
    typstyle_core::Typstyle::new(typstyle_core::Config::default()).format_text(text).render().ok()
}

/// The formatted text of a document, if typstyle can format it.
pub fn format_text_document(text: &str) -> (r: Option<String>)
    ensures
        match formatted_text(text@) {
            Some(f) => r matches Some(s) && s@ == f,
            None => r is None,
        },
{
    format_with_typstyle(text)
}

/// An edit that replaces a range of a document.
#[derive(Clone, Debug)]
pub struct FormatEdit {
    pub range: Range,
    pub new_text: String,
}

/// The position just past the end of `t`.
pub open spec fn end_position(t: Seq<char>) -> Position {
    position_at(t, t.len() as int)
}

/// The edit that puts `formatted` in place of the whole of `text`; none
/// where there is no formatted text.
pub fn formatting_edit(text: &str, formatted: Option<String>) -> (r: Option<FormatEdit>)
    ensures
        match formatted {
            Some(f) => r matches Some(e) && e.new_text == f && e.range == (Range {
                start: Position { line: 0, character: 0 },
                end: end_position(text@),
            }),
            None => r is None,
        },
{
    match formatted {
        None => None,
        Some(f) => {
            let t = text_chars(text);
            let end = match position_from_chars(&t, t.len()) {
                Some(p) => p,
                None => Position { line: 0, character: 0 },
            };
            Some(
                FormatEdit { range: Range { start: Position { line: 0, character: 0 }, end }, new_text: f },
            )
        },
    }
}

/// The edit that formats the whole document, if typstyle can format it.
pub fn handle_formatting(text: &str) -> (r: Option<FormatEdit>)
    ensures
        match formatted_text(text@) {
            Some(f) => r matches Some(e) && e.new_text@ == f && e.range == (Range {
                start: Position { line: 0, character: 0 },
                end: end_position(text@),
            }),
            None => r is None,
        },
{
    let formatted = format_text_document(text);
    formatting_edit(text, formatted)
}

} // verus!
