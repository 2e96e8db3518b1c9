use vstd::prelude::*;

use ropey::{Rope, RopeSlice};

verus! {

#[verifier::external_type_specification]
#[verifier::external_body]
pub struct ExRope(Rope);

#[verifier::external_type_specification]
#[verifier::external_body]
pub struct ExRopeSlice<'a>(RopeSlice<'a>);

/// The text that a rope holds, as chars.
pub uninterp spec fn rope_chars(rope: Rope) -> Seq<char>;

/// The text that a rope slice holds, as chars.
pub uninterp spec fn slice_chars(slice: RopeSlice<'_>) -> Seq<char>;

/// The chars that end a line: LF, VT, FF, CR, NEL, LS and PS (a CR followed
/// by an LF ends one line only).
pub open spec fn is_line_break_char(c: char) -> bool {
    c == '\n' || c == '\u{B}' || c == '\u{C}' || c == '\r' || c == '\u{85}' || c == '\u{2028}'
        || c == '\u{2029}'
}

/// Whether a line break ends right before index `p` of `t`.
pub open spec fn break_ends_at(t: Seq<char>, p: int) -> bool {
    &&& 0 < p <= t.len()
    &&& is_line_break_char(t[p - 1])
    &&& !(t[p - 1] == '\r' && p < t.len() && t[p] == '\n')
}

/// The number of line breaks that end at or before index `p` of `t`: the
/// index of the line that holds the char at `p`.
pub open spec fn breaks_up_to(t: Seq<char>, p: int) -> nat
    decreases p,
{
    if p <= 0 {
        0
    } else {
        breaks_up_to(t, p - 1) + if break_ends_at(t, p) {
            1nat
        } else {
            0nat
        }
    }
}

/// The number of lines of `t`: one more than its line breaks.
pub open spec fn line_count(t: Seq<char>) -> nat {
    breaks_up_to(t, t.len() as int) + 1
}

/// The first index after `p` where a line starts, or the end of `t`.
pub open spec fn next_line_start(t: Seq<char>, p: int) -> int
    decreases t.len() - p,
{
    if p >= t.len() {
        t.len() as int
    } else if break_ends_at(t, p + 1) {
        p + 1
    } else {
        next_line_start(t, p + 1)
    }
}

/// The index of the first char of line `i` of `t`; the end of `t` for
/// `i == line_count(t)`.
pub open spec fn line_start(t: Seq<char>, i: nat) -> int
    decreases i,
{
    if i == 0 {
        0
    } else {
        next_line_start(t, line_start(t, (i - 1) as nat))
    }
}

/// Line `i` of `t`, with the break that ends it.
pub open spec fn line_text(t: Seq<char>, i: nat) -> Seq<char> {
    t.subrange(line_start(t, i), line_start(t, i + 1))
}

/// The next line start from `p` lies after `p` (at `p` only at the end of
/// the text) and within the text.
pub proof fn lemma_next_line_start(t: Seq<char>, p: int)
    requires
        0 <= p,
    ensures
        p <= t.len() ==> p <= next_line_start(t, p),
        p < t.len() ==> p < next_line_start(t, p),
        next_line_start(t, p) <= t.len(),
    decreases t.len() - p,
{
    if p < t.len() {
        lemma_next_line_start(t, p + 1);
    }
}

/// Line starts grow with the line index and stay within the text.
pub proof fn lemma_line_start(t: Seq<char>, i: nat)
    ensures
        0 <= line_start(t, i) <= line_start(t, i + 1) <= t.len(),
    decreases i,
{
    if i > 0 {
        lemma_line_start(t, (i - 1) as nat);
    }
    lemma_next_line_start(t, line_start(t, i));
}

/// From `q` on, the next line starts right after the next line break, one
/// break further; or, when no break follows, at the end of the text.
pub proof fn lemma_next_line_start_breaks(t: Seq<char>, q: int)
    requires
        0 <= q <= t.len(),
    ensures
        ({
            let n = next_line_start(t, q);
            ||| q < n && break_ends_at(t, n) && breaks_up_to(t, n) == breaks_up_to(t, q) + 1
            ||| n == t.len() && breaks_up_to(t, t.len() as int) == breaks_up_to(t, q)
        }),
    decreases t.len() - q,
{
    if q < t.len() && !break_ends_at(t, q + 1) {
        lemma_next_line_start_breaks(t, q + 1);
    }
}

/// Every line but the first starts right after a line break, and that
/// break is the line's index-th.
pub proof fn lemma_line_start_breaks(t: Seq<char>, k: nat)
    requires
        k < line_count(t),
    ensures
        breaks_up_to(t, line_start(t, k)) == k,
        k > 0 ==> break_ends_at(t, line_start(t, k)),
    decreases k,
{
    if k > 0 {
        lemma_line_start_breaks(t, (k - 1) as nat);
        lemma_line_start(t, (k - 1) as nat);
        lemma_next_line_start_breaks(t, line_start(t, (k - 1) as nat));
    }
}

/// Line starts grow with the line index.
pub proof fn lemma_line_start_monotonic(t: Seq<char>, j: nat, k: nat)
    requires
        j <= k,
    ensures
        line_start(t, j) <= line_start(t, k),
    decreases k - j,
{
    if j < k {
        lemma_line_start_monotonic(t, j, (k - 1) as nat);
        lemma_line_start(t, (k - 1) as nat);
    }
}

/// Whether inserting `c` at `p` of `t` leaves the line break that ends at
/// `p` alone: it does unless a line feed goes right after a carriage
/// return, which it would join into one break.
pub open spec fn keeps_break_at(t: Seq<char>, p: int, c: char) -> bool {
    !(c == '\n' && 0 < p && t[p - 1] == '\r')
}

/// Inserting a char at `p` (but a line feed right after a carriage return)
/// keeps every line break that ends at or before `p`, and changes none that
/// ends before `p`.
pub proof fn lemma_insert_keeps_breaks(t: Seq<char>, p: int, c: char, x: int)
    requires
        0 <= p <= t.len(),
        keeps_break_at(t, p, c),
        0 < x <= p,
    ensures
        break_ends_at(t, x) ==> break_ends_at(t.insert(p, c), x),
        x < p ==> break_ends_at(t.insert(p, c), x) == break_ends_at(t, x),
{
    let u = t.insert(p, c);
    assert(u[x - 1] == t[x - 1]);
    if x < p {
        assert(u[x] == t[x]);
    } else {
        assert(u[x] == c);
    }
}

/// After such an insertion at `p`, the next line start from `q` is the same
/// when it follows a line break that ends at or before `p`.
pub proof fn lemma_insert_next_line_start(t: Seq<char>, p: int, c: char, q: int)
    requires
        0 <= p <= t.len(),
        keeps_break_at(t, p, c),
        0 <= q < next_line_start(t, q),
        break_ends_at(t, next_line_start(t, q)),
        next_line_start(t, q) <= p,
    ensures
        next_line_start(t.insert(p, c), q) == next_line_start(t, q),
    decreases t.len() - q,
{
    lemma_insert_keeps_breaks(t, p, c, q + 1);
    if !break_ends_at(t, q + 1) {
        lemma_next_line_start(t, q + 1);
        lemma_insert_next_line_start(t, p, c, q + 1);
    }
}

/// Such an insertion at `p` moves none of the line starts up to `p`.
pub proof fn lemma_insert_line_start(t: Seq<char>, p: int, c: char, k: nat)
    requires
        0 <= p <= t.len(),
        keeps_break_at(t, p, c),
        k < line_count(t),
        line_start(t, k) <= p,
    ensures
        line_start(t.insert(p, c), k) == line_start(t, k),
    decreases k,
{
    if k > 0 {
        let j = (k - 1) as nat;
        lemma_line_start_monotonic(t, j, k);
        lemma_insert_line_start(t, p, c, j);
        lemma_line_start_breaks(t, j);
        lemma_line_start_breaks(t, k);
        lemma_line_start(t, j);
        lemma_insert_next_line_start(t, p, c, line_start(t, j));
    }
}

/// Such an insertion at `p` loses none of the line breaks up to `p`.
pub proof fn lemma_insert_breaks_grow(t: Seq<char>, p: int, c: char, x: int)
    requires
        0 <= p <= t.len(),
        keeps_break_at(t, p, c),
        x <= p,
    ensures
        breaks_up_to(t.insert(p, c), x) >= breaks_up_to(t, x),
    decreases x,
{
    if x > 0 {
        lemma_insert_breaks_grow(t, p, c, x - 1);
        lemma_insert_keeps_breaks(t, p, c, x);
    }
}

/// Calls `Rope::new`. Claimed: the rope is empty.
#[verifier::external_body]
pub(crate) fn rope_new() -> (rope: Rope)
    ensures
        rope_chars(rope) == Seq::<char>::empty(),
        rope_chars(rope).len() <= usize::MAX,
{
    Rope::new()
}

/// Calls `Rope::from_str`. Claimed: the rope holds `text`, whose length in
/// chars fits in a `usize` (as `len_chars` reports it).
#[verifier::external_body]
pub(crate) fn rope_from_str(text: &str) -> (rope: Rope)
    ensures
        rope_chars(rope) == text@,
        rope_chars(rope).len() <= usize::MAX,
{
    Rope::from_str(text)
}

/// Calls `Rope::len_chars`. Claimed: the number of chars.
#[verifier::external_body]
pub(crate) fn rope_len_chars(rope: &Rope) -> (len: usize)
    ensures
        len == rope_chars(*rope).len(),
{
    rope.len_chars()
}

/// Calls `Rope::len_lines`. Claimed: one more than the number of line breaks.
#[verifier::external_body]
pub(crate) fn rope_len_lines(rope: &Rope) -> (count: usize)
    ensures
        count == line_count(rope_chars(*rope)),
{
    rope.len_lines()
}

/// Calls `Rope::insert_char`, which panics past the end. Claimed: `ch` is
/// inserted at `char_idx`. (A rope holds at most `usize::MAX` chars.)
#[verifier::external_body]
pub(crate) fn rope_insert_char(rope: &mut Rope, char_idx: usize, ch: char)
    requires
        char_idx <= rope_chars(*old(rope)).len(),
        rope_chars(*old(rope)).len() < usize::MAX,
    ensures
        rope_chars(*final(rope)) == rope_chars(*old(rope)).insert(char_idx as int, ch),
{
    rope.insert_char(char_idx, ch)
}

/// Calls `Rope::remove` on `start..end`, which panics unless
/// `start <= end <= len_chars()`. Claimed: those chars are removed.
#[verifier::external_body]
pub(crate) fn rope_remove(rope: &mut Rope, start: usize, end: usize)
    requires
        start <= end <= rope_chars(*old(rope)).len(),
    ensures
        rope_chars(*final(rope)) == rope_chars(*old(rope)).subrange(0, start as int)
            + rope_chars(*old(rope)).subrange(end as int, rope_chars(*old(rope)).len() as int),
{
    rope.remove(start..end)
}

/// Calls `Rope::line_to_char`, which panics past `len_lines()`. Claimed: the
/// index of the first char of line `line_idx`.
#[verifier::external_body]
pub(crate) fn rope_line_to_char(rope: &Rope, line_idx: usize) -> (char_idx: usize)
    requires
        line_idx <= line_count(rope_chars(*rope)),
    ensures
        char_idx == line_start(rope_chars(*rope), line_idx as nat),
{
    rope.line_to_char(line_idx)
}

/// Calls `Rope::char_to_line`, which panics past `len_chars()`. Claimed: the
/// number of line breaks that end at or before `char_idx`.
#[verifier::external_body]
pub(crate) fn rope_char_to_line(rope: &Rope, char_idx: usize) -> (line_idx: usize)
    requires
        char_idx <= rope_chars(*rope).len(),
    ensures
        line_idx == breaks_up_to(rope_chars(*rope), char_idx as int),
{
    rope.char_to_line(char_idx)
}

/// Calls `Rope::get_line`. Claimed: line `line_idx` with its break when
/// there is such a line, else nothing.
#[verifier::external_body]
pub(crate) fn rope_get_line(rope: &Rope, line_idx: usize) -> (line: Option<RopeSlice<'_>>)
    ensures
        line is Some <==> line_idx < line_count(rope_chars(*rope)),
        line matches Some(s) ==> slice_chars(s) == line_text(rope_chars(*rope), line_idx as nat),
{
    rope.get_line(line_idx)
}

/// Calls `String::from` on a rope slice. Claimed: the string holds the
/// slice's text.
#[verifier::external_body]
pub(crate) fn slice_to_string(slice: RopeSlice<'_>) -> (text: String)
    ensures
        text@ == slice_chars(slice),
{
    String::from(slice)
}

/// Calls `Rope::to_string`. Claimed: the string holds the rope's text.
#[verifier::external_body]
pub(crate) fn rope_to_string(rope: &Rope) -> (text: String)
    ensures
        text@ == rope_chars(*rope),
{
    rope.to_string()
}

} // verus!
