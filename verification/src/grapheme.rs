//! The division of text into grapheme clusters.
//!
//! The division itself is the work of the `unicode-segmentation` crate and
//! is taken on trust. Everything that is done with the clusters once they
//! are at hand is in [`crate::cluster`], and is proved for every sequence of
//! clusters whatever.
use unicode_segmentation::UnicodeSegmentation;
use vstd::prelude::*;

verus! {

/// The extended grapheme clusters of `text`, first to last, as the Unicode
/// text segmentation rules divide it.
pub uninterp spec fn grapheme_clusters(text: Seq<char>) -> Seq<Seq<char>>;

/// `parts` divides `text`: joined in order they give it back, and none of
/// them is empty.
pub open spec fn partitions(parts: Seq<Seq<char>>, text: Seq<char>) -> bool {
    &&& parts.flatten() == text
    &&& forall|i: int| 0 <= i < parts.len() ==> (#[trigger] parts[i]).len() > 0
}

/// Trusted: `UnicodeSegmentation::graphemes` with extended clusters.
///
/// The iterator hands out consecutive slices of `text`, each running from one
/// cluster boundary to the next one after it, until the end of `text` is
/// reached. The contract names that sequence `grapheme_clusters(text)` and
/// claims of it only what the iteration shows: the slices are not empty and
/// together they are `text`.
#[verifier::external_body]
pub(crate) fn graphemes<'a>(text: &'a str) -> (parts: Vec<&'a str>)
    ensures
        parts.deep_view() == grapheme_clusters(text@),
        partitions(parts.deep_view(), text@),
{
    text.graphemes(true).collect()
}

} // verus!
