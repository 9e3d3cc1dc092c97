//! Lexical path operations used to match context paths against patterns.
use vstd::prelude::*;

verus! {

/// What `path_clean::clean` makes of a path.
pub uninterp spec fn cleaned(p: Seq<char>) -> Seq<char>;

/// Whether `std::path::Path::starts_with` holds: `base` is a prefix of
/// `path`, whole components only.
pub uninterp spec fn path_starts_with(path: Seq<char>, base: Seq<char>) -> bool;

/// Whether `std::path::Path`'s equality holds: the same components.
pub uninterp spec fn path_eq(a: Seq<char>, b: Seq<char>) -> bool;

/// The path cleaned lexically by `path_clean::clean` (repeated separators,
/// `.` and resolvable `..` removed). Claimed: the result is a function of
/// the path, and never empty (the source returns `.` instead).
#[verifier::external_body]
pub(crate) fn clean_path(p: &str) -> (r: String)
    ensures
        r@ == cleaned(p@),
        r@.len() > 0,
{
    path_clean::clean(p).to_string_lossy().into_owned()
}

/// Whether `base` is a prefix of `path` by whole components (std's
/// `Path::starts_with`). Claimed: the result is a function of both paths.
#[verifier::external_body]
pub(crate) fn starts_with(path: &str, base: &str) -> (r: bool)
    ensures
        r == path_starts_with(path@, base@),
{
    std::path::Path::new(path).starts_with(base)
}

/// Whether two paths have the same components (std's `Path` equality).
/// Claimed: the result is a function of both paths.
#[verifier::external_body]
pub(crate) fn same_path(a: &str, b: &str) -> (r: bool)
    ensures
        r == path_eq(a@, b@),
{
    std::path::Path::new(a) == std::path::Path::new(b)
}

} // verus!
