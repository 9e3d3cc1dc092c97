//! Splitting command lines into words with POSIX shell rules.
use vstd::prelude::*;

verus! {

/// The words that `shlex::Shlex` yields for a command line.
pub uninterp spec fn shlex_words(cmd: Seq<char>) -> Seq<Seq<char>>;

/// Splits a command line with the `shlex` crate's `Shlex` iterator and
/// collects every word it yields. Claimed: the result is a function of
/// `cmd` alone; nothing is said of how the words are formed.
#[verifier::external_body]
pub(crate) fn shlex_split(cmd: &str) -> (r: Vec<String>)
    ensures
        r@.map_values(|s: String| s@) == shlex_words(cmd@),
{
    shlex::Shlex::new(cmd).collect()
}

} // verus!
