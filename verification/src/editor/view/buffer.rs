use vstd::prelude::*;

use ropey::{Rope, RopeSlice};

use crate::editor::terminal::sat_sub;
use crate::editor::view::grapheme::cap;
use crate::rope::{
    breaks_up_to, line_count, line_start, line_text, rope_char_to_line, rope_chars,
    rope_from_str, rope_get_line, rope_insert_char, rope_len_chars, rope_len_lines,
    rope_line_to_char, rope_new, rope_remove, rope_to_string, slice_chars,
};
use crate::text::{chars_of, starts_with_at};

verus! {

/// The indices of `t`, from `from` on, where `pat` occurs, found left to
/// right without overlap; an empty pattern occurs at every index up to the
/// end of `t`.
pub open spec fn match_positions(t: Seq<char>, pat: Seq<char>, from: int) -> Seq<int>
    decreases t.len() + 1 - from,
{
    if from < 0 || from > t.len() {
        Seq::empty()
    } else if pat.is_prefix_of(t.subrange(from, t.len() as int)) {
        seq![from] + match_positions(t, pat, from + match_step(pat))
    } else {
        match_positions(t, pat, from + 1)
    }
}

/// Where the char at index `c` of `t` stands: its line, and its index within
/// that line.
pub open spec fn line_and_column(t: Seq<char>, c: int) -> (usize, usize) {
    let line = breaks_up_to(t, c);
    (line as usize, sat_sub(c, line_start(t, line)) as usize)
}

/// Every occurrence of `pat` in `t`, by line and index within the line.
pub open spec fn search_results(t: Seq<char>, pat: Seq<char>) -> Seq<(usize, usize)> {
    match_positions(t, pat, 0).map_values(|c: int| line_and_column(t, c))
}

/// Line breaks only add up along the text.
pub proof fn lemma_breaks_up_to_monotonic(t: Seq<char>, p: int, q: int)
    requires
        p <= q,
    ensures
        breaks_up_to(t, p) <= breaks_up_to(t, q),
    decreases q - p,
{
    if p < q {
        lemma_breaks_up_to_monotonic(t, p, q - 1);
    }
}

/// The step from one match to where the scan goes on: the pattern's length,
/// or one index for an empty pattern.
pub open spec fn match_step(pat: Seq<char>) -> int {
    if pat.len() == 0 {
        1
    } else {
        pat.len() as int
    }
}

/// Search finds exactly the occurrences of the pattern that do not overlap
/// an earlier one: every match is an occurrence, each starts a pattern's
/// length (at least one index) after the one before, and every occurrence
/// from `from` on is a match or starts inside one.
#[verifier::spinoff_prover]
#[verifier::rlimit(40)]
pub proof fn lemma_matches_are_occurrences(t: Seq<char>, pat: Seq<char>, from: int)
    requires
        0 <= from,
    ensures
        forall|k: int|
            0 <= k < match_positions(t, pat, from).len() ==> {
                let m = #[trigger] match_positions(t, pat, from)[k];
                &&& from <= m <= t.len()
                &&& pat.is_prefix_of(t.subrange(m, t.len() as int))
            },
        forall|k: int|
            0 <= k < match_positions(t, pat, from).len() - 1 ==> #[trigger] match_positions(
                t,
                pat,
                from,
            )[k] + match_step(pat) <= match_positions(t, pat, from)[k + 1],
        forall|x: int|
            from <= x <= t.len() && pat.is_prefix_of(#[trigger] t.subrange(x, t.len() as int))
                ==> exists|k: int|
                0 <= k < match_positions(t, pat, from).len() && #[trigger] match_positions(
                    t,
                    pat,
                    from,
                )[k] <= x < match_positions(t, pat, from)[k] + match_step(pat),
    decreases t.len() + 1 - from,
{
    let ms = match_positions(t, pat, from);
    if from <= t.len() {
        let step = match_step(pat);
        if pat.is_prefix_of(t.subrange(from, t.len() as int)) {
            lemma_matches_are_occurrences(t, pat, from + step);
            let rest = match_positions(t, pat, from + step);
            assert(ms == seq![from] + rest);
            assert forall|k: int| 0 <= k < ms.len() implies {
                let m = #[trigger] ms[k];
                &&& from <= m <= t.len()
                &&& pat.is_prefix_of(t.subrange(m, t.len() as int))
            } by {
                if k > 0 {
                    assert(ms[k] == rest[k - 1]);
                }
            }
            assert forall|k: int| 0 <= k < ms.len() - 1 implies #[trigger] ms[k] + step <= ms[k
                + 1] by {
                assert(ms[k + 1] == rest[k]);
                if k > 0 {
                    assert(ms[k] == rest[k - 1]);
                } else if rest.len() > 0 {
                    assert(from + step <= rest[0]);
                }
            }
            assert forall|x: int|
                from <= x <= t.len() && pat.is_prefix_of(
                    #[trigger] t.subrange(x, t.len() as int),
                ) implies exists|k: int| 0 <= k < ms.len() && #[trigger] ms[k] <= x < ms[k] + step by {
                if x < from + step {
                    assert(ms[0] == from);
                } else {
                    let j = choose|j: int|
                        0 <= j < rest.len() && #[trigger] rest[j] <= x < rest[j] + step;
                    assert(ms[j + 1] == rest[j]);
                }
            }
        } else {
            lemma_matches_are_occurrences(t, pat, from + 1);
            assert(ms == match_positions(t, pat, from + 1));
        }
    }
}

/// The document: a rope of text and whether it changed since it was last
/// saved.
pub struct Buffer {
    pub document: Rope,
    pub is_dirty: bool,
}

impl Buffer {
    /// The text of the document.
    pub open spec fn text(&self) -> Seq<char> {
        rope_chars(self.document)
    }

    /// A buffer that holds `contents`, the text read from a file, or nothing
    /// when there is no file or it could not be read.
    pub fn new(contents: Option<&str>) -> (buffer: Self)
        ensures
            buffer.text() == (match contents {
                Some(c) => c@,
                None => Seq::<char>::empty(),
            }),
            buffer.text().len() <= usize::MAX,
            !buffer.is_dirty,
    {
        let mut document = rope_new();
        if let Some(text) = contents {
            document = rope_from_str(text);
        }
        Self { document, is_dirty: false }
    }

    /// Line `idx`, with its break, if there is such a line.
    pub fn get_line(&self, idx: usize) -> (line: Option<RopeSlice<'_>>)
        ensures
            line is Some <==> idx < line_count(self.text()),
            line matches Some(s) ==> slice_chars(s) == line_text(self.text(), idx as nat),
    {
        rope_get_line(&self.document, idx)
    }

    /// The number of lines.
    pub fn line_count(&self) -> (count: usize)
        ensures
            count == line_count(self.text()),
    {
        rope_len_lines(&self.document)
    }

    /// Whether the document holds no text.
    pub fn is_empty(&self) -> (empty: bool)
        ensures
            empty == (self.text().len() == 0),
    {
        rope_len_chars(&self.document) == 0
    }

    /// `self` is `old` with `ch` inserted at char index `pos`, and marked
    /// changed.
    pub open spec fn inserted_from(&self, old: &Buffer, pos: int, ch: char) -> bool {
        &&& self.text() == old.text().insert(pos, ch)
        &&& self.is_dirty
    }

    /// `self` is `old` without its `len` chars from char index `pos` on (up
    /// to index `usize::MAX`), and marked changed.
    pub open spec fn deleted_range_from(&self, old: &Buffer, pos: int, len: int) -> bool {
        &&& self.text() == old.text().subrange(0, pos) + old.text().subrange(
            cap(pos + len) as int,
            old.text().len() as int,
        )
        &&& self.is_dirty
    }

    /// Inserts `ch` at char index `pos` and marks the document changed.
    pub fn insert_char(&mut self, pos: usize, ch: char)
        requires
            pos <= old(self).text().len(),
            old(self).text().len() < usize::MAX,
        ensures
            final(self).inserted_from(old(self), pos as int, ch),
    {
        rope_insert_char(&mut self.document, pos, ch);
        self.is_dirty = true;
    }

    /// Removes the `len` chars from char index `pos` on (up to index
    /// `usize::MAX`) and marks the document changed.
    pub fn delete_range_char(&mut self, pos: usize, len: usize)
        requires
            cap(pos + len) <= old(self).text().len(),
        ensures
            final(self).deleted_range_from(old(self), pos as int, len as int),
    {
        let end = pos.saturating_add(len);
        rope_remove(&mut self.document, pos, end);
        self.is_dirty = true;
    }

    /// Records that the document was just written out.
    pub fn mark_saved(&mut self)
        ensures
            final(self).text() == old(self).text(),
            !final(self).is_dirty,
    {
        self.is_dirty = false;
    }

    /// Every occurrence of `query` in the document, found left to right
    /// without overlap, by line and char index within the line.
    pub fn search_document(&self, query: &str) -> (results: Vec<(usize, usize)>)
        ensures
            results@ == search_results(self.text(), query@),
    {
        let ghost t = self.text();
        let document_string = rope_to_string(&self.document);
        let chars = chars_of(document_string.as_str());
        let pattern = chars_of(query);
        let n = chars.len();
        let m = pattern.len();
        let mut results: Vec<(usize, usize)> = Vec::new();
        let mut from: usize = 0;
        loop
            invariant
                chars@ == t,
                t == self.text(),
                pattern@ == query@,
                n == t.len(),
                m == query@.len(),
                from <= n,
                results@ + match_positions(t, query@, from as int).map_values(
                    |c: int| line_and_column(t, c),
                ) == search_results(t, query@),
            decreases n - from,
        {
            let matched = starts_with_at(&chars, from, &pattern);
            let ghost tail = match_positions(t, query@, from as int);
            let ghost before = results@;
            if matched {
                let line_idx = rope_char_to_line(&self.document, from);
                proof {
                    lemma_breaks_up_to_monotonic(t, from as int, t.len() as int);
                }
                let start_of_line = rope_line_to_char(&self.document, line_idx);
                results.push((line_idx, from.saturating_sub(start_of_line)));
            }
            let step: usize = if matched && m > 0 {
                m
            } else {
                1
            };
            let ghost next = from + step;
            assert(tail == if matched {
                seq![from as int] + match_positions(t, query@, next)
            } else {
                match_positions(t, query@, next)
            });
            if matched {
                assert(tail.map_values(|c: int| line_and_column(t, c)) =~= seq![
                    line_and_column(t, from as int),
                ] + match_positions(t, query@, next).map_values(|c: int| line_and_column(t, c)));
                assert(results@ =~= before.push(line_and_column(t, from as int)));
            }
            if step > n - from {
                assert(match_positions(t, query@, next) == Seq::<int>::empty());
                assert(results@ + Seq::<int>::empty().map_values(|c: int| line_and_column(t, c))
                    =~= results@);
                return results;
            }
            from = from + step;
        }
    }
}

/// Deleting the char just inserted gives the text back: after
/// `insert_char(pos, ch)` and then `delete_range_char(pos, 1)` the text is
/// what it was, and the buffer counts as changed.
pub proof fn lemma_delete_undoes_insert(b0: Buffer, b1: Buffer, b2: Buffer, pos: int, ch: char)
    requires
        0 <= pos <= b0.text().len() < usize::MAX,
        b1.inserted_from(&b0, pos, ch),
        b2.deleted_range_from(&b1, pos, 1),
    ensures
        b2.text() == b0.text(),
        b2.is_dirty,
{
    assert(b2.text() =~= b0.text());
}

} // verus!
