//! Paths of the file system, as text.

use vstd::prelude::*;

verus! {

/// The text of the path that results when the path `name` is adjoined to
/// the path `base`, by the rules of the platform's file system.
pub uninterp spec fn joined_path(base: Seq<char>, name: Seq<char>) -> Seq<char>;

/// Adjoins `name` to `base` with `std::path::Path::join`. The result is
/// taken to depend on the two texts alone; what it is, the standard
/// library decides.
#[verifier::external_body]
pub(crate) fn join_path(base: &str, name: &str) -> (path: String)
    ensures
        path@ == joined_path(base@, name@),
{
    std::path::Path::new(base).join(name).to_string_lossy().into_owned()
}

} // verus!
