//! Text as std's `Debug` formatting writes it.

use vstd::prelude::*;

verus! {

/// The text that `Debug` writes for a string: quoted, with escapes.
pub uninterp spec fn quoted_text(s: Seq<char>) -> Seq<char>;

/// Formats `s` with std's `Debug` for `str` (`format!("{:?}", s)`). The
/// escaping rules are std's; the contract only names the result as a
/// function of the text.
#[verifier::external_body]
pub(crate) fn debug_quoted(s: &str) -> (q: String)
    ensures
        q@ == quoted_text(s@),
{
    format!("{:?}", s)
}

} // verus!
