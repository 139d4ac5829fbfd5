//! The parts of a path, as `std::path::Path` splits it.

use vstd::prelude::*;

verus! {

/// A text that may be missing, taken by its characters.
pub open spec fn opt_text(o: Option<String>) -> Option<Seq<char>> {
    match o {
        Some(s) => Some(s@),
        None => None,
    }
}

/// What `Path::parent` gives for the path written `p`: the path without its last
/// component, or nothing where it ends in a root or a prefix or is empty.
pub uninterp spec fn path_parent(p: Seq<char>) -> Option<Seq<char>>;

/// What `Path::file_name` gives for the path written `p`: its last component where
/// that is a normal one, nothing where it ends in `..` or a root.
pub uninterp spec fn path_file_name(p: Seq<char>) -> Option<Seq<char>>;

/// `std::path::Path::parent` of the path `p`, as a string. The text of a part of a
/// `&str` is valid UTF-8, so the lossy conversion is exact. Its contract claims only
/// that the result is a function of `p`, named `path_parent`.
#[verifier::external_body]
pub(crate) fn parent_of(p: &str) -> (r: Option<String>)
    ensures
        opt_text(r) == path_parent(p@),
{
    match std::path::Path::new(p).parent() {
        Some(q) => Some(q.to_string_lossy().into_owned()),
        None => None,
    }
}

/// `std::path::Path::file_name` of the path `p`, as a string. Its contract claims
/// only that the result is a function of `p`, named `path_file_name`.
#[verifier::external_body]
pub(crate) fn file_name_of(p: &str) -> (r: Option<String>)
    ensures
        opt_text(r) == path_file_name(p@),
{
    match std::path::Path::new(p).file_name() {
        Some(q) => Some(q.to_string_lossy().into_owned()),
        None => None,
    }
}

} // verus!
