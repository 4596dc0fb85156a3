//! Terminal column widths of texts.
use vstd::prelude::*;
use unicode_width::UnicodeWidthStr;

verus! {

/// The number of terminal columns a text takes, as `unicode_width` counts it.
pub uninterp spec fn text_width(s: Seq<char>) -> usize;

/// The displayed width of a text in terminal columns.
///
/// Calls `UnicodeWidthStr::width`, which sums the widths of the characters
/// per Unicode Standard Annex #11; the value is named `text_width` and
/// depends on the text alone.
#[verifier::external_body]
pub(crate) fn str_width(s: &str) -> (r: usize)
    ensures
        r == text_width(s@),
{
    s.width()
}

} // verus!
