//! Document and analysis core of a language server for Typst markup.
//!
//! - `text`: line/column positions and character offsets.
//! - `tree`, `syntax`: the parsed tree as an arena, and how it is built from
//!   the typst parser's tree; the chain of nodes at a cursor.
//! - `store`: open documents, edited in batches and reparsed.
//! - `symbols`: labels and references, missing labels, goto-definition.
//! - `delimiters`, `diagnostics`, `imports`: what is reported on a document.
//! - `completion`, `hints`, `formatting`: what the editor is offered.
//! - `bibliography`, `semantic`: citation keys, and semantic-analysis tables.
pub mod text;
pub mod delimiters;
pub mod tree;
pub mod syntax;
pub mod diagnostics;
pub mod symbols;
pub mod store;
pub mod bibliography;
pub mod semantic;
pub mod completion;
pub mod hints;
pub mod imports;
pub mod formatting;
