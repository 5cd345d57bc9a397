//! Grapheme segmentation and display width, as the Unicode crates define them.
use vstd::prelude::*;

verus! {

/// The extended-legacy grapheme clusters of a text, in order.
pub uninterp spec fn grapheme_clusters(s: Seq<char>) -> Seq<Seq<char>>;

/// The number of terminal columns that a text occupies.
pub uninterp spec fn display_width(s: Seq<char>) -> usize;

pub open spec fn string_views(v: Seq<String>) -> Seq<Seq<char>> {
    v.map_values(|g: String| g@)
}

/// Relies on `UnicodeSegmentation::graphemes` (legacy clusters): its
/// iterator hands out consecutive, non-empty slices from the start of the
/// text to its end.
#[verifier::external_body]
pub(crate) fn graphemes_of(s: &str) -> (r: Vec<String>)
    ensures
        string_views(r@) == grapheme_clusters(s@),
        string_views(r@).flatten() == s@,
        forall|i: int| 0 <= i < r@.len() ==> (#[trigger] r@[i])@.len() > 0,
{
    unicode_segmentation::UnicodeSegmentation::graphemes(s, false).map(String::from).collect()
}

/// Relies on `UnicodeWidthStr::width`: the columns that `s` occupies.
#[verifier::external_body]
pub(crate) fn width_of(s: &str) -> (r: usize)
    ensures
        r == display_width(s@),
{
    unicode_width::UnicodeWidthStr::width(s)
}

} // verus!
