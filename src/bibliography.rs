//! Citation keys of a bibliography written in hayagriva's YAML format.
use vstd::prelude::*;
use crate::symbols::names_view;

verus! {

/// The keys of the entries of the bibliography that `content` holds, in the
/// order of the file, or `None` where `content` is not such a bibliography.
pub uninterp spec fn bibliography_keys(content: Seq<char>) -> Option<Seq<Seq<char>>>;

/// Relies on `hayagriva::io::from_yaml_str`, which parses the text alone,
/// and `Library::keys`, which lists the keys in the order of the file.
#[verifier::external_body]
fn parse_bibliography_keys(content: &str) -> (r: Option<Vec<String>>)
    ensures
        match bibliography_keys(content@) {
            Some(k) => r is Some && names_view(r->0@) == k,
            None => r is None,
        },
{
    hayagriva::io::from_yaml_str(content).ok().map(|lib| lib.keys().map(|k| k.to_owned()).collect())
}

/// Why a bibliography could not be read.
#[derive(Clone, Copy, Debug, PartialEq, Eq, Structural)]
pub enum BibError {
    /// The text is not a bibliography in hayagriva's YAML format.
    Malformed,
}

/// The citation keys of the bibliography `content`, in the order of the
/// file; an error where it does not parse.
pub fn get_bib_keys(content: &str) -> (r: Result<Vec<String>, BibError>)
    ensures
        match bibliography_keys(content@) {
            Some(k) => r matches Ok(v) && names_view(v@) == k,
            None => r == Err::<Vec<String>, BibError>(BibError::Malformed),
        },
{
    match parse_bibliography_keys(content) {
        Some(keys) => Ok(keys),
        None => Err(BibError::Malformed),
    }
}

} // verus!
