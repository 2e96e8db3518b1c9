use vstd::prelude::*;

use unicode_segmentation::UnicodeSegmentation;
use unicode_width::UnicodeWidthStr;

verus! {

/// The concatenation of `parts`, in order.
pub open spec fn concat_all(parts: Seq<Seq<char>>) -> Seq<char>
    decreases parts.len(),
{
    if parts.len() == 0 {
        Seq::empty()
    } else {
        concat_all(parts.drop_last()) + parts.last()
    }
}

/// The texts of a sequence of strings.
pub open spec fn texts(strings: Seq<String>) -> Seq<Seq<char>> {
    strings.map_values(|s: String| s@)
}

/// The extended grapheme clusters (Unicode Annex #29) of `text`, in order,
/// as unicode-segmentation computes them.
pub uninterp spec fn grapheme_clusters(text: Seq<char>) -> Seq<Seq<char>>;

/// The number of terminal columns that `text` occupies, as unicode-width
/// computes it outside an East Asian context.
pub uninterp spec fn display_width(text: Seq<char>) -> usize;

/// Whether `c` has the Unicode `Alphabetic` property.
pub uninterp spec fn unicode_alphabetic(c: char) -> bool;

/// Whether `c` is alphabetic or numeric in the sense of Unicode.
pub uninterp spec fn unicode_alphanumeric(c: char) -> bool;

/// Whether `c` has the Unicode `White_Space` property.
pub uninterp spec fn unicode_white_space(c: char) -> bool;

/// Whether `c` is in the general category `Cc` (control codes).
pub open spec fn is_control_char(c: char) -> bool {
    ('\u{0}' <= c && c <= '\u{1F}') || ('\u{7F}' <= c && c <= '\u{9F}')
}

/// Whether `c` is one of the ASCII digits `0` to `9`.
pub open spec fn is_ascii_digit(c: char) -> bool {
    '0' <= c && c <= '9'
}

/// Calls `UnicodeSegmentation::graphemes(text, true)` of unicode-segmentation.
/// Claimed: the clusters are `grapheme_clusters(text)`; they are not empty and,
/// put back together in order, give `text` again (the iterator walks the
/// string from start to end, yielding consecutive slices).
#[verifier::external_body]
pub(crate) fn graphemes(text: &str) -> (clusters: Vec<String>)
    ensures
        texts(clusters@) == grapheme_clusters(text@),
        concat_all(texts(clusters@)) == text@,
        forall|i: int| 0 <= i < clusters@.len() ==> #[trigger] clusters@[i]@.len() > 0,
{
    text.graphemes(true).map(String::from).collect()
}

/// Calls `UnicodeWidthStr::width` of unicode-width.
/// Claimed: the result is `display_width(text)`.
#[verifier::external_body]
pub(crate) fn width(text: &str) -> (columns: usize)
    ensures
        columns == display_width(text@),
{
    text.width()
}

/// Calls `char::is_alphabetic`. Claimed: the result is `unicode_alphabetic(c)`.
#[verifier::external_body]
pub(crate) fn char_is_alphabetic(c: char) -> (r: bool)
    ensures
        r == unicode_alphabetic(c),
{
    c.is_alphabetic()
}

/// Calls `char::is_alphanumeric`. Claimed: the result is
/// `unicode_alphanumeric(c)`, and it holds of every alphabetic char (the
/// documentation defines it as alphabetic or numeric).
#[verifier::external_body]
pub(crate) fn char_is_alphanumeric(c: char) -> (r: bool)
    ensures
        r == unicode_alphanumeric(c),
        unicode_alphabetic(c) ==> r,
{
    c.is_alphanumeric()
}

/// Calls `char::is_whitespace`. Claimed: the result is `unicode_white_space(c)`.
#[verifier::external_body]
pub(crate) fn char_is_whitespace(c: char) -> (r: bool)
    ensures
        r == unicode_white_space(c),
{
    c.is_whitespace()
}

/// Whether `c` is a control code (general category `Cc`): what
/// `char::is_control` tells.
pub(crate) fn char_is_control(c: char) -> (r: bool)
    ensures
        r == is_control_char(c),
{
    (c >= '\u{0}' && c <= '\u{1F}') || (c >= '\u{7F}' && c <= '\u{9F}')
}

} // verus!
