use vstd::prelude::*;

use ropey::RopeSlice;
use vstd::view::View as _;

pub mod buffer;
pub mod grapheme;
pub mod languageconfig;
pub mod location;

use self::buffer::{lemma_breaks_up_to_monotonic, match_positions, search_results, Buffer};
use self::grapheme::{
    cap, char_prefix, chars_before, columns_before, count_graphemes, drawn_range, fragment_texts,
    grapheme_at_char, grapheme_holding, lemma_chars_before, lemma_line_model, plain_graphemes,
    replacement_for, visible_count, width_prefix, Line, TextFragment,
};
use self::languageconfig::LanguageConfig;
use super::commands::{Direction, EditorCommand};
use super::terminal::{sat_add_u16, sat_sub, Position, Size};
use crate::rope::{
    breaks_up_to, is_line_break_char, keeps_break_at, lemma_insert_breaks_grow,
    lemma_insert_line_start, lemma_line_start, lemma_line_start_breaks, line_count, line_start,
    line_text, rope_chars, rope_len_chars, rope_line_to_char, slice_chars,
};
use crate::text::{chars_of, push_char};
use crate::unicode::{concat_all, is_control_char};

verus! {

/// The editor's name.
pub const NAME: &'static str = "rustle";

/// The editor's version.
pub const VERSION: &'static str = "0.1.0";

/// The welcome text shown over an empty document.
pub open spec fn welcome_text() -> Seq<char> {
    NAME@ + " editor - version "@ + VERSION@
}

/// Where the cursor is: a grapheme of a line.
#[derive(Clone, Copy, PartialEq, Eq, Structural, PartialOrd, Ord, Debug)]
pub struct Location {
    pub grapheme_index: usize,
    pub line_index: usize,
}

impl Default for Location {
    fn default() -> (location: Self)
        ensures
            location.grapheme_index == 0 && location.line_index == 0,
    {
        Location { grapheme_index: 0, line_index: 0 }
    }
}

/// What the status bar shows of the view.
#[derive(PartialEq, Eq, Structural, Clone, Copy, Debug)]
pub struct ViewStatus {
    pub total_lines: usize,
    pub current_line_idx: usize,
    pub is_modified: bool,
}

impl Default for ViewStatus {
    fn default() -> (status: Self)
        ensures
            status.total_lines == 0 && status.current_line_idx == 0 && !status.is_modified,
    {
        ViewStatus { total_lines: 0, current_line_idx: 0, is_modified: false }
    }
}

/// How a match of the search is highlighted: the current one stands out.
#[derive(Clone, Copy, PartialEq, Eq, Structural, Debug)]
pub enum MatchHighlight {
    Current,
    Other,
}

/// A piece of a row of the screen, with the highlight it is drawn with.
pub struct Segment {
    pub text: String,
    pub highlight: Option<MatchHighlight>,
}

/// The texts and highlights of segments.
pub open spec fn segment_views(segments: Seq<Segment>) -> Seq<(Seq<char>, Option<MatchHighlight>)> {
    segments.map_values(|s: Segment| (s.text@, s.highlight))
}

/// The part of graphemes `from` up to `to` that lies in the visible
/// graphemes `visible_start` up to `visible_end`, as a segment, if any.
pub open spec fn segment_of(
    gs: Seq<Seq<char>>,
    from: int,
    to: int,
    visible_start: int,
    visible_end: int,
    highlight: Option<MatchHighlight>,
) -> Seq<(Seq<char>, Option<MatchHighlight>)> {
    let visible_from = if from > visible_start {
        from
    } else {
        visible_start
    };
    let visible_to = if to < visible_end {
        to
    } else {
        visible_end
    };
    if from >= to || visible_from >= visible_to {
        Seq::empty()
    } else {
        seq![(drawn_range(gs, visible_from, visible_to), highlight)]
    }
}

/// The matches among `locs` from `k` on that lie on line `line`, with their
/// indices.
pub open spec fn matches_on_line(locs: Seq<Location>, line: int, k: int) -> Seq<(int, Location)>
    decreases locs.len() - k,
{
    if k < 0 || k >= locs.len() {
        Seq::empty()
    } else if locs[k].line_index == line {
        seq![(k, locs[k])] + matches_on_line(locs, line, k + 1)
    } else {
        matches_on_line(locs, line, k + 1)
    }
}

/// The segments of a line from grapheme `from` on, given its matches from
/// the `k`-th on: plain text up to each match, then the match highlighted
/// over `match_len` graphemes, then the rest of the line.
pub open spec fn row_segments(
    gs: Seq<Seq<char>>,
    on_line: Seq<(int, Location)>,
    k: int,
    from: int,
    match_len: int,
    visible_start: int,
    visible_end: int,
    current: Option<usize>,
) -> Seq<(Seq<char>, Option<MatchHighlight>)>
    decreases on_line.len() - k,
{
    if k < 0 || k >= on_line.len() {
        segment_of(gs, from, visible_count(gs) as int, visible_start, visible_end, None)
    } else {
        let (idx, loc) = on_line[k];
        let start = loc.grapheme_index as int;
        let end = sat_add(start, match_len);
        let highlight = if current == Some(idx as usize) {
            MatchHighlight::Current
        } else {
            MatchHighlight::Other
        };
        segment_of(gs, from, start, visible_start, visible_end, None) + segment_of(
            gs,
            start,
            end,
            visible_start,
            visible_end,
            Some(highlight),
        ) + row_segments(
            gs,
            on_line,
            k + 1,
            end,
            match_len,
            visible_start,
            visible_end,
            current,
        )
    }
}

/// What screen row `r` of a view shows: nothing past the end of the text
/// (drawn as a tilde), else the visible part of its line, with the matches
/// of the search highlighted.
pub open spec fn row_view(
    t: Seq<char>,
    r: u16,
    offset: Position,
    size: Size,
    matches: Seq<Location>,
    query: Seq<char>,
    current: Option<usize>,
) -> Option<Seq<(Seq<char>, Option<MatchHighlight>)>> {
    let line = sat_add_u16(r as int, offset.row as int) as int;
    let visible_start = offset.col as int;
    let visible_end = sat_add_u16(offset.col as int, size.width as int) as int;
    let gs = line_graphemes(t, line);
    let on_line = matches_on_line(matches, line, 0);
    if !has_line(t, line) {
        None
    } else if on_line.len() == 0 {
        Some(seq![(drawn_range(gs, visible_start, visible_end), None::<MatchHighlight>)])
    } else {
        Some(
            row_segments(
                gs,
                on_line,
                0,
                0,
                visible_count(plain_graphemes(query)) as int,
                visible_start,
                visible_end,
                current,
            ),
        )
    }
}

/// Whether `t` has a line `i`.
pub open spec fn has_line(t: Seq<char>, i: int) -> bool {
    0 <= i < line_count(t)
}

/// The graphemes in which line `i` of `t` is shown.
pub open spec fn line_graphemes(t: Seq<char>, i: int) -> Seq<Seq<char>> {
    plain_graphemes(line_text(t, i as nat))
}

/// The number of graphemes of line `i` of `t` that the cursor can stand
/// before (the line break does not count); 0 when there is no such line.
pub open spec fn line_length(t: Seq<char>, i: int) -> nat {
    if has_line(t, i) {
        visible_count(line_graphemes(t, i))
    } else {
        0
    }
}

/// `g`, or the number of graphemes when `g` is past them.
pub open spec fn clamp_to(gs: Seq<Seq<char>>, g: int) -> int {
    if g < gs.len() {
        g
    } else {
        gs.len() as int
    }
}

/// The columns before grapheme `g` of line `i`; 0 when there is no such line.
pub open spec fn cursor_columns(t: Seq<char>, i: int, g: int) -> int {
    if has_line(t, i) {
        cap(columns_before(line_graphemes(t, i), clamp_to(line_graphemes(t, i), g)) as int) as int
    } else {
        0
    }
}

/// A location from its parts.
pub open spec fn at(line_index: int, grapheme_index: int) -> Location {
    Location { grapheme_index: grapheme_index as usize, line_index: line_index as usize }
}

/// The cursor pulled back onto its line. (The line looked up is the one
/// whose index is the grapheme index.)
pub open spec fn snap_grapheme(t: Seq<char>, loc: Location) -> Location {
    at(
        loc.line_index as int,
        if has_line(t, loc.grapheme_index as int) {
            if line_length(t, loc.grapheme_index as int) < loc.grapheme_index {
                line_length(t, loc.grapheme_index as int) as int
            } else {
                loc.grapheme_index as int
            }
        } else {
            0
        },
    )
}

/// The cursor pulled back onto the last line.
pub open spec fn snap_line(t: Seq<char>, loc: Location) -> Location {
    at(
        if sat_sub(line_count(t) as int, 1) < loc.line_index {
            sat_sub(line_count(t) as int, 1)
        } else {
            loc.line_index as int
        },
        loc.grapheme_index as int,
    )
}

/// The cursor `step` lines up.
pub open spec fn moved_up(t: Seq<char>, loc: Location, step: int) -> Location {
    snap_grapheme(t, at(sat_sub(loc.line_index as int, step), loc.grapheme_index as int))
}

/// `a + b`, or `usize::MAX` when that is larger.
pub open spec fn sat_add(a: int, b: int) -> int {
    if a + b <= usize::MAX {
        a + b
    } else {
        usize::MAX as int
    }
}

/// The cursor `step` lines down.
pub open spec fn moved_down(t: Seq<char>, loc: Location, step: int) -> Location {
    snap_line(
        t,
        snap_grapheme(t, at(sat_add(loc.line_index as int, step), loc.grapheme_index as int)),
    )
}

/// The cursor at the end of its line.
pub open spec fn to_line_end(t: Seq<char>, loc: Location) -> Location {
    at(loc.line_index as int, line_length(t, loc.line_index as int) as int)
}

/// The cursor one grapheme to the left, or at the end of the line above.
pub open spec fn moved_left(t: Seq<char>, loc: Location) -> Location {
    if loc.grapheme_index > 0 {
        at(loc.line_index as int, loc.grapheme_index - 1)
    } else if loc.line_index > 0 {
        to_line_end(t, moved_up(t, loc, 1))
    } else {
        loc
    }
}

/// The cursor one grapheme to the right, or at the start of the line below.
pub open spec fn moved_right(t: Seq<char>, loc: Location) -> Location {
    if loc.grapheme_index < line_length(t, loc.line_index as int) {
        at(loc.line_index as int, loc.grapheme_index + 1)
    } else {
        at(moved_down(t, loc, 1).line_index as int, 0)
    }
}

/// The cursor after a move in `direction`, where a page is the `height` rows
/// of text that one screen shows.
pub open spec fn moved(t: Seq<char>, loc: Location, direction: Direction, height: u16) -> Location {
    match direction {
        Direction::Up => moved_up(t, loc, 1),
        Direction::Down => moved_down(t, loc, 1),
        Direction::Left => moved_left(t, loc),
        Direction::Right => moved_right(t, loc),
        Direction::PageUp => moved_up(t, loc, height as int),
        Direction::PageDown => moved_down(t, loc, height as int),
        Direction::Home => at(loc.line_index as int, 0),
        Direction::End => to_line_end(t, loc),
    }
}

/// The scroll offset along one axis after bringing `pos` into a window of
/// `extent` cells, and whether it changed.
pub open spec fn scroll_axis(pos: u16, offset: u16, extent: u16) -> (u16, bool) {
    if pos < offset {
        (pos, true)
    } else if pos >= sat_add_u16(offset as int, extent as int) {
        (sat_add_u16(sat_sub(pos as int, extent as int), 1), true)
    } else {
        (offset, false)
    }
}

/// The scroll offset that shows the cursor at `loc`, and whether it
/// changed. (Row and column are taken modulo 2^16.)
pub open spec fn scrolled(t: Seq<char>, loc: Location, offset: Position, size: Size) -> (
    Position,
    bool,
) {
    let row = loc.line_index as u16;
    let col = cursor_columns(t, row as int, loc.grapheme_index as int) as u16;
    let vertical = scroll_axis(row, offset.row, size.height);
    let horizontal = scroll_axis(col, offset.col, size.width);
    (Position { col: horizontal.0, row: vertical.0 }, vertical.1 || horizontal.1)
}

/// Where a char typed at `loc` goes: before the cursor's grapheme, counted
/// in chars from the start of its line, or at the end of the text when the
/// cursor is past the last line.
pub open spec fn insert_position(t: Seq<char>, loc: Location) -> int {
    let i = loc.line_index as int;
    if has_line(t, i) {
        line_start(t, i as nat) + cap(
            chars_before(
                line_graphemes(t, i),
                clamp_to(line_graphemes(t, i), loc.grapheme_index as int),
            ) as int,
        )
    } else {
        t.len() as int
    }
}

/// The cursor after typing `ch` at `loc`: the start of the next line after
/// a line break, else one grapheme further.
pub open spec fn typed_location(loc: Location, ch: char) -> Location {
    if ch == '\n' {
        at(loc.line_index + 1, 0)
    } else {
        at(loc.line_index as int, loc.grapheme_index + 1)
    }
}

/// The chars of the grapheme at `loc` (on a line that exists): where they
/// start and how many there are (none past the line's graphemes).
pub open spec fn grapheme_span(t: Seq<char>, loc: Location) -> (int, int) {
    let i = loc.line_index as int;
    let gs = line_graphemes(t, i);
    let g = loc.grapheme_index as int;
    (
        line_start(t, i as nat) + cap(chars_before(gs, clamp_to(gs, g)) as int),
        if g < gs.len() {
            gs[g].len() as int
        } else {
            0
        },
    )
}

/// `t` without its `len` chars from index `start` on.
pub open spec fn without(t: Seq<char>, start: int, len: int) -> Seq<char> {
    t.subrange(0, start) + t.subrange(start + len, t.len() as int)
}

/// Where each occurrence of `q` in `t` stands: its line, and the grapheme of
/// that line that holds its first char.
pub open spec fn match_locations(t: Seq<char>, q: Seq<char>) -> Seq<Location> {
    search_results(t, q).map_values(
        |r: (usize, usize)|
            at(r.0 as int, grapheme_holding(line_graphemes(t, r.0 as int), r.1 as int, 0)),
    )
}

/// Whether `a` is at or after `start`.
pub open spec fn at_or_after(a: Location, start: Location) -> bool {
    a.line_index > start.line_index || (a.line_index == start.line_index && a.grapheme_index
        >= start.grapheme_index)
}

/// The index of the first of `locs` from `k` on that is at or after `start`.
pub open spec fn first_at_or_after(locs: Seq<Location>, start: Location, k: int) -> Option<int>
    decreases locs.len() - k,
{
    if k < 0 || k >= locs.len() {
        None
    } else if at_or_after(locs[k], start) {
        Some(k)
    } else {
        first_at_or_after(locs, start, k + 1)
    }
}

/// The match after `current` among `n`, wrapping around to the first.
pub open spec fn next_match(current: Option<usize>, n: int) -> int {
    match current {
        Some(i) => (i + 1) % n,
        None => 0,
    }
}

/// The match before `current` among `n`, wrapping around to the last.
pub open spec fn previous_match(current: Option<usize>, n: int) -> int {
    match current {
        Some(i) => if i == 0 {
            n - 1
        } else {
            i - 1
        },
        None => 0,
    }
}

/// Every match found from `from` on lies between `from` and the end of the
/// text.
proof fn lemma_match_positions_bounds(t: Seq<char>, q: Seq<char>, from: int)
    requires
        0 <= from,
    ensures
        forall|k: int|
            0 <= k < match_positions(t, q, from).len() ==> from <= #[trigger] match_positions(
                t,
                q,
                from,
            )[k] <= t.len(),
    decreases t.len() + 1 - from,
{
    if from <= t.len() {
        let step = if q.len() == 0 {
            1
        } else {
            q.len() as int
        };
        if q.is_prefix_of(t.subrange(from, t.len() as int)) {
            lemma_match_positions_bounds(t, q, from + step);
            let tail = match_positions(t, q, from + step);
            assert(match_positions(t, q, from) == seq![from] + tail);
            assert forall|k: int| 0 <= k < match_positions(t, q, from).len() implies from
                <= #[trigger] match_positions(t, q, from)[k] <= t.len() by {
                if k > 0 {
                    assert(match_positions(t, q, from)[k] == tail[k - 1]);
                }
            }
        } else {
            lemma_match_positions_bounds(t, q, from + 1);
            assert(match_positions(t, q, from) == match_positions(t, q, from + 1));
        }
    }
}

/// The first match at or after a location is one of the matches from `k` on.
proof fn lemma_first_at_or_after(locs: Seq<Location>, start: Location, k: int)
    requires
        0 <= k,
    ensures
        first_at_or_after(locs, start, k) matches Some(j) ==> k <= j < locs.len(),
    decreases locs.len() - k,
{
    if k < locs.len() && !at_or_after(locs[k], start) {
        lemma_first_at_or_after(locs, start, k + 1);
    }
}

/// The index of the first of `locations` at or after `start`.
fn first_location_at_or_after(locations: &Vec<Location>, start: Location) -> (idx: Option<usize>)
    ensures
        idx == (match first_at_or_after(locations@, start, 0) {
            Some(k) => Some(k as usize),
            None => None,
        }),
        idx matches Some(k) ==> k < locations@.len(),
{
    proof {
        lemma_first_at_or_after(locations@, start, 0);
    }
    let mut p: usize = 0;
    while p < locations.len()
        invariant
            p <= locations@.len(),
            first_at_or_after(locations@, start, 0) == first_at_or_after(locations@, start, p as int),
        decreases locations@.len() - p,
    {
        let loc = locations[p];
        if loc.line_index > start.line_index || (loc.line_index == start.line_index
            && loc.grapheme_index >= start.grapheme_index) {
            return Some(p);
        }
        p += 1;
    }
    None
}

/// No more line breaks end up to `p` than there are chars before it.
proof fn lemma_breaks_up_to_bound(t: Seq<char>, p: int)
    ensures
        breaks_up_to(t, p) <= if p < 0 {
            0
        } else {
            p
        },
    decreases p,
{
    if p > 0 {
        lemma_breaks_up_to_bound(t, p - 1);
    }
}

/// A line of the document, shown as plain text.
fn plain_line(slice: RopeSlice<'_>) -> (line: Line)
    ensures
        fragment_texts(line.fragments@) == plain_graphemes(slice_chars(slice)),
        concat_all(plain_graphemes(slice_chars(slice))) == slice_chars(slice),
        line.fragments@.len() == plain_graphemes(slice_chars(slice)).len(),
        count_graphemes(line.fragments@) == visible_count(plain_graphemes(slice_chars(slice))),
        forall|n: int| n <= line.fragments@.len() ==> #[trigger] width_prefix(line.fragments@, n) == columns_before(plain_graphemes(slice_chars(slice)), n),
        forall|n: int| n <= line.fragments@.len() ==> #[trigger] char_prefix(line.fragments@, n) == chars_before(plain_graphemes(slice_chars(slice)), n),
        forall|c: int, p: int| #[trigger] grapheme_at_char(line.fragments@, c, p) == grapheme_holding(plain_graphemes(slice_chars(slice)), c, p),
        forall|k: int| 0 <= k < line.fragments@.len() ==> #[trigger] line.fragments@[k].text() == plain_graphemes(slice_chars(slice))[k],
        forall|k: int| 0 <= k < line.fragments@.len() ==> #[trigger] line.fragments@[k].rendered_right(),
{
    let config = LanguageConfig::text();
    let line = Line::get_fragments_from_rope_slice(slice, &config);
    proof {
        lemma_line_model(line.fragments@);
        assert(fragment_texts(line.fragments@) =~= plain_graphemes(slice_chars(slice)));
    }
    line
}

/// The view of the document: the buffer, the part of it on screen, the
/// cursor and the results of the last search.
pub struct View {
    pub buffer: Buffer,
    margin_bottom: usize,
    size: Size,
    location: Location,
    scroll_offset: Position,
    needs_redraw: bool,
    search_locations: Vec<Location>,
    current_search_idx: Option<usize>,
    search_query: String,
}

impl View {
    /// The document.
    pub closed spec fn buf(&self) -> Buffer {
        self.buffer
    }

    /// The rows kept free below the view.
    pub closed spec fn margin(&self) -> usize {
        self.margin_bottom
    }

    /// The size of the view.
    pub closed spec fn view_size(&self) -> Size {
        self.size
    }

    /// The cursor.
    pub closed spec fn loc(&self) -> Location {
        self.location
    }

    /// The first shown cell of the document.
    pub closed spec fn scroll(&self) -> Position {
        self.scroll_offset
    }

    /// Whether the view must be drawn again.
    pub closed spec fn redraw(&self) -> bool {
        self.needs_redraw
    }

    /// The locations of the matches of the last search.
    pub closed spec fn matches(&self) -> Seq<Location> {
        self.search_locations@
    }

    /// The match the cursor was last moved to.
    pub closed spec fn current_match(&self) -> Option<usize> {
        self.current_search_idx
    }

    /// The last query searched for.
    pub closed spec fn query(&self) -> Seq<char> {
        self.search_query@
    }

    /// The text of the document.
    pub open spec fn text(&self) -> Seq<char> {
        self.buf().text()
    }

    /// The current match, if any, is one of the matches, and the text and
    /// the list of matches fit in a `usize`.
    pub open spec fn wf(&self) -> bool {
        &&& self.current_match() matches Some(i) ==> i < self.matches().len()
        &&& self.text().len() <= usize::MAX
        &&& self.matches().len() <= usize::MAX
    }

    /// Nothing but the cursor differs between the two views.
    pub open spec fn same_but_cursor(&self, other: &View) -> bool {
        &&& self.buf() == other.buf()
        &&& self.margin() == other.margin()
        &&& self.view_size() == other.view_size()
        &&& self.scroll() == other.scroll()
        &&& self.redraw() == other.redraw()
        &&& self.same_search(other)
    }

    /// Nothing but the mark for drawing differs between the two views.
    pub open spec fn same_but_redraw(&self, other: &View) -> bool {
        &&& self.buf() == other.buf()
        &&& self.margin() == other.margin()
        &&& self.view_size() == other.view_size()
        &&& self.loc() == other.loc()
        &&& self.scroll() == other.scroll()
        &&& self.same_search(other)
    }

    /// `self` is `old` after a move of the cursor in `direction` on a
    /// page of the view's height, scrolled into view.
    pub open spec fn moved_from(&self, old: &View, direction: Direction) -> bool {
        &&& self.loc() == moved(old.text(), old.loc(), direction, old.view_size().height)
        &&& (self.scroll(), self.redraw()) == scrolled(
            old.text(),
            self.loc(),
            old.scroll(),
            old.view_size(),
        )
        &&& self.buf() == old.buf()
        &&& self.margin() == old.margin()
        &&& self.view_size() == old.view_size()
        &&& self.same_search(old)
    }

    /// `self` is `old` resized for a terminal of `size`.
    pub open spec fn resized_from(&self, old: &View, size: Size) -> bool {
        &&& self.view_size() == (Size {
            width: size.width,
            height: sat_sub(size.height as int, old.margin() as u16 as int) as u16,
        })
        &&& self.scroll() == scrolled(old.text(), old.loc(), old.scroll(), self.view_size()).0
        &&& self.redraw()
        &&& self.buf() == old.buf()
        &&& self.margin() == old.margin()
        &&& self.loc() == old.loc()
        &&& self.same_search(old)
    }

    /// `self` is `old` with `ch` typed at the cursor.
    pub open spec fn typed_from(&self, old: &View, ch: char) -> bool {
        &&& insert_position(old.text(), old.loc()) <= old.text().len()
        &&& self.text() == old.text().insert(insert_position(old.text(), old.loc()), ch)
        &&& self.buf().is_dirty
        &&& self.loc() == typed_location(old.loc(), ch)
        &&& self.scroll() == scrolled(self.text(), self.loc(), old.scroll(), old.view_size()).0
        &&& self.redraw()
        &&& self.margin() == old.margin()
        &&& self.view_size() == old.view_size()
        &&& self.same_search(old)
    }

    /// `self` is `old` with the `len` chars from `start` on removed and the
    /// cursor at `loc`, scrolled into view.
    pub open spec fn removed_from(&self, old: &View, loc: Location, start: int, len: int) -> bool {
        &&& self.text() == without(old.text(), start, len)
        &&& self.buf().is_dirty
        &&& self.loc() == loc
        &&& self.scroll() == scrolled(self.text(), loc, old.scroll(), old.view_size()).0
        &&& self.redraw()
        &&& self.margin() == old.margin()
        &&& self.view_size() == old.view_size()
        &&& self.same_search(old)
    }

    /// `self` is `old` after a backspace: nothing at the very start; else
    /// the cursor moves left and the grapheme it lands on is removed.
    pub open spec fn backspaced_from(&self, old: &View) -> bool {
        let t = old.text();
        let left = moved_left(t, old.loc());
        if old.loc() == at(0, 0) {
            *self == *old
        } else if has_line(t, left.line_index as int) {
            self.removed_from(old, left, grapheme_span(t, left).0, grapheme_span(t, left).1)
        } else {
            self.loc() == left && self.same_but_cursor(old)
        }
    }

    /// `self` is `old` after a delete: the grapheme at the cursor is
    /// removed; at the end of a line that is not the last, its break is.
    pub open spec fn deleted_from(&self, old: &View) -> bool {
        let t = old.text();
        let loc = old.loc();
        let i = loc.line_index as int;
        if !has_line(t, i) {
            *self == *old
        } else if loc.grapheme_index >= line_length(t, i) {
            if i < line_count(t) - 1 {
                self.removed_from(old, loc, sat_sub(line_start(t, (i + 1) as nat), 1), 1)
            } else {
                *self == *old
            }
        } else {
            self.removed_from(old, loc, grapheme_span(t, loc).0, grapheme_span(t, loc).1)
        }
    }

    /// `self` is `old` after `command` was carried out on a terminal
    /// `height` rows high.
    pub open spec fn handled_from(&self, old: &View, command: EditorCommand) -> bool {
        match command {
            EditorCommand::Resize(size) => self.resized_from(old, size),
            EditorCommand::Move(direction) => self.moved_from(old, direction),
            EditorCommand::Insert(c) => self.typed_from(old, c),
            EditorCommand::Backspace => self.backspaced_from(old),
            EditorCommand::Enter => self.typed_from(old, '\n'),
            EditorCommand::Delete => self.deleted_from(old),
            _ => *self == *old,
        }
    }

    /// What carrying out `command` asks of the view.
    pub open spec fn can_handle(&self, command: EditorCommand) -> bool {
        match command {
            EditorCommand::Insert(c) => self.can_type(c),
            EditorCommand::Enter => self.can_type('\n'),
            _ => true,
        }
    }

    /// What typing `ch` asks of the cursor and the text: that neither the
    /// cursor's index nor the text's length overflows.
    pub open spec fn can_type(&self, ch: char) -> bool {
        &&& ch == '\n' ==> self.loc().line_index < usize::MAX
        &&& ch != '\n' ==> self.loc().grapheme_index < usize::MAX
        &&& self.text().len() < usize::MAX
    }

    /// The two views hold the same search.
    pub open spec fn same_search(&self, other: &View) -> bool {
        &&& self.matches() == other.matches()
        &&& self.current_match() == other.current_match()
        &&& self.query() == other.query()
    }

    /// A view of the text `contents` (none when there is no file or it could
    /// not be read) on a terminal of `terminal_size`, keeping
    /// `margin_bottom` rows free below.
    pub fn new(contents: Option<&str>, margin_bottom: u16, terminal_size: Size) -> (view: Self)
        ensures
            view.wf(),
            view.text() == (match contents {
                Some(c) => c@,
                None => Seq::<char>::empty(),
            }),
            !view.buf().is_dirty,
            view.view_size() == (Size {
                width: terminal_size.width,
                height: sat_sub(terminal_size.height as int, margin_bottom as int) as u16,
            }),
            view.margin() == margin_bottom as usize,
            view.loc() == at(0, 0),
            view.scroll() == (Position { col: 0, row: 0 }),
            view.redraw(),
            view.matches() == Seq::<Location>::empty(),
            view.current_match() == None::<usize>,
            view.query() == Seq::<char>::empty(),
    {
        Self {
            buffer: Buffer::new(contents),
            size: Size {
                width: terminal_size.width,
                height: terminal_size.height.saturating_sub(margin_bottom),
            },
            margin_bottom: margin_bottom as usize,
            location: Location::default(),
            scroll_offset: Position { col: 0, row: 0 },
            needs_redraw: true,
            search_locations: Vec::new(),
            current_search_idx: None,
            search_query: String::new(),
        }
    }

    /// The cursor.
    pub fn location(&self) -> (location: Location)
        ensures
            location == self.loc(),
    {
        self.location
    }

    /// The size of the view.
    pub fn size(&self) -> (size: Size)
        ensures
            size == self.view_size(),
    {
        self.size
    }

    /// The first shown cell of the document.
    pub fn scroll_offset(&self) -> (offset: Position)
        ensures
            offset == self.scroll(),
    {
        self.scroll_offset
    }

    /// Records that the document was just written out.
    pub fn mark_saved(&mut self)
        requires
            old(self).wf(),
        ensures
            final(self).wf(),
            final(self).text() == old(self).text(),
            !final(self).buf().is_dirty,
            final(self).margin() == old(self).margin(),
            final(self).view_size() == old(self).view_size(),
            final(self).loc() == old(self).loc(),
            final(self).scroll() == old(self).scroll(),
            final(self).redraw() == old(self).redraw(),
            final(self).same_search(old(self)),
    {
        self.buffer.mark_saved();
    }

    /// Marks whether the view must be drawn again.
    pub fn mark_redraw(&mut self, value: bool)
        ensures
            final(self).redraw() == value,
            final(self).buf() == old(self).buf(),
            final(self).margin() == old(self).margin(),
            final(self).view_size() == old(self).view_size(),
            final(self).loc() == old(self).loc(),
            final(self).scroll() == old(self).scroll(),
            final(self).same_search(old(self)),
    {
        self.needs_redraw = value;
    }

    /// Whether the view must be drawn again.
    pub fn needs_redraw(&self) -> (r: bool)
        ensures
            r == self.redraw(),
    {
        self.needs_redraw
    }

    /// The number of graphemes of line `line_index` before its break, or 0.
    fn line_length(&self, line_index: usize) -> (len: usize)
        ensures
            len == line_length(self.text(), line_index as int),
    {
        match self.buffer.get_line(line_index) {
            Some(slice) => plain_line(slice).grapheme_count(),
            None => 0,
        }
    }

    /// Moves the cursor `step` lines up.
    fn move_up(&mut self, step: u16)
        ensures
            final(self).loc() == moved_up(old(self).text(), old(self).loc(), step as int),
            final(self).same_but_cursor(old(self)),
    {
        self.location.line_index = self.location.line_index.saturating_sub(step as usize);
        self.snap_to_valid_grapheme();
    }

    /// Moves the cursor `step` lines down.
    fn move_down(&mut self, step: u16)
        ensures
            final(self).loc() == moved_down(old(self).text(), old(self).loc(), step as int),
            final(self).same_but_cursor(old(self)),
    {
        self.location.line_index = self.location.line_index.saturating_add(step as usize);
        self.snap_to_valid_grapheme();
        self.snap_to_valid_line();
    }

    /// Moves the cursor one grapheme left, or to the end of the line above.
    fn move_left(&mut self)
        ensures
            final(self).loc() == moved_left(old(self).text(), old(self).loc()),
            final(self).same_but_cursor(old(self)),
    {
        if self.location.grapheme_index > 0 {
            self.location.grapheme_index -= 1;
        } else if self.location.line_index > 0 {
            self.move_up(1);
            self.move_to_line_end();
        }
    }

    /// Moves the cursor one grapheme right, or to the start of the line below.
    fn move_right(&mut self)
        ensures
            final(self).loc() == moved_right(old(self).text(), old(self).loc()),
            final(self).same_but_cursor(old(self)),
    {
        let line_width = self.line_length(self.location.line_index);
        if self.location.grapheme_index < line_width {
            self.location.grapheme_index += 1;
        } else {
            self.move_down(1);
            self.move_to_line_start();
        }
    }

    /// Moves the cursor to the start of its line.
    fn move_to_line_start(&mut self)
        ensures
            final(self).loc() == at(old(self).loc().line_index as int, 0),
            final(self).same_but_cursor(old(self)),
    {
        self.location.grapheme_index = 0;
    }

    /// Moves the cursor to the end of its line.
    fn move_to_line_end(&mut self)
        ensures
            final(self).loc() == to_line_end(old(self).text(), old(self).loc()),
            final(self).same_but_cursor(old(self)),
    {
        self.location.grapheme_index = self.line_length(self.location.line_index);
    }

    // doesn't trigger scroll
    /// Pulls the cursor back onto its line (checked against the line whose
    /// index is the grapheme index).
    fn snap_to_valid_grapheme(&mut self)
        ensures
            final(self).loc() == snap_grapheme(old(self).text(), old(self).loc()),
            final(self).same_but_cursor(old(self)),
    {
        let len = self.line_length(self.location.grapheme_index);
        self.location.grapheme_index = match self.buffer.get_line(self.location.grapheme_index) {
            Some(_) => if len < self.location.grapheme_index {
                len
            } else {
                self.location.grapheme_index
            },
            None => 0,
        };
    }

    /// Pulls the cursor back onto the last line.
    fn snap_to_valid_line(&mut self)
        ensures
            final(self).loc() == snap_line(old(self).text(), old(self).loc()),
            final(self).same_but_cursor(old(self)),
    {
        let last = self.buffer.line_count().saturating_sub(1);
        self.location.line_index = if last < self.location.line_index {
            last
        } else {
            self.location.line_index
        };
    }

    /// Inserts `ch` before the cursor and moves the cursor past it.
    fn add_character(&mut self, ch: char)
        requires
            old(self).wf(),
            old(self).can_type(ch),
        ensures
            final(self).wf(),
            final(self).typed_from(old(self), ch),
    {
        let ghost t = self.text();
        let ghost loc = self.location;
        match self.buffer.get_line(self.location.line_index) {
            Some(line) => {
                let view_line = plain_line(line);
                let char_idx_in_line = view_line.grapheme_to_char_idx(self.location.grapheme_index);
                let start = rope_line_to_char(&self.buffer.document, self.location.line_index);
                proof {
                    self.lemma_span_fits(loc);
                }
                let pos = start + char_idx_in_line;
                self.buffer.insert_char(pos, ch);
            },
            None => {
                let pos = rope_len_chars(&self.buffer.document);
                self.buffer.insert_char(pos, ch);
            },
        }
        if ch == '\n' {
            self.location.line_index += 1;
            self.location.grapheme_index = 0;
        } else {
            self.location.grapheme_index += 1;
        }
        self.scroll_into_view();
        self.mark_redraw(true);
    }

    /// The chars of the grapheme at `loc` lie within its line.
    proof fn lemma_span_fits(&self, loc: Location)
        requires
            has_line(self.text(), loc.line_index as int),
            concat_all(line_graphemes(self.text(), loc.line_index as int)) == line_text(
                self.text(),
                loc.line_index as nat,
            ),
        ensures
            0 <= grapheme_span(self.text(), loc).0,
            grapheme_span(self.text(), loc).0 + grapheme_span(self.text(), loc).1 <= line_start(
                self.text(),
                (loc.line_index + 1) as nat,
            ) <= self.text().len(),
            grapheme_span(self.text(), loc).0 == insert_position(self.text(), loc),
            grapheme_span(self.text(), loc).1 >= 0,
    {
        let t = self.text();
        let i = loc.line_index as int;
        let gs = line_graphemes(t, i);
        let g = loc.grapheme_index as int;
        let n = clamp_to(gs, g);
        lemma_line_start(t, i as nat);
        lemma_chars_before(gs, n);
        if g < gs.len() {
            lemma_chars_before(gs, g + 1);
        }
    }

    /// Deletes the grapheme before the cursor, or the line break before the
    /// line, and moves the cursor back.
    fn remove_backward(&mut self)
        requires
            old(self).wf(),
        ensures
            final(self).wf(),
            final(self).backspaced_from(old(self)),
    {
        if self.location.line_index == 0 && self.location.grapheme_index == 0 {
            return;
        }
        self.move_left();
        let ghost loc = self.location;
        match self.buffer.get_line(self.location.line_index) {
            Some(line) => {
                let view_line = plain_line(line);
                let char_idx_in_line = view_line.grapheme_to_char_idx(self.location.grapheme_index);
                let grapheme_char_len = match view_line.grapheme_char_len(
                    self.location.grapheme_index,
                ) {
                    Some(len) => len,
                    None => 0,
                };
                let start = rope_line_to_char(&self.buffer.document, self.location.line_index);
                proof {
                    self.lemma_span_fits(loc);
                }
                let pos = start + char_idx_in_line;
                self.buffer.delete_range_char(pos, grapheme_char_len);
                self.scroll_into_view();
                self.mark_redraw(true);
            },
            None => {},
        }
    }

    /// Deletes the grapheme at the cursor, or at the end of a line the break
    /// that ends it.
    fn remove_forward(&mut self)
        requires
            old(self).wf(),
        ensures
            final(self).wf(),
            final(self).deleted_from(old(self)),
    {
        let ghost t = self.text();
        let ghost loc = self.location;
        match self.buffer.get_line(self.location.line_index) {
            Some(line) => {
                let view_line = plain_line(line);
                let line_len = view_line.grapheme_count();
                if self.location.grapheme_index >= line_len {
                    if self.location.line_index < self.buffer.line_count() - 1 {
                        proof {
                            lemma_line_start(t, (loc.line_index + 1) as nat);
                        }
                        let pos = rope_line_to_char(
                            &self.buffer.document,
                            self.location.line_index + 1,
                        ).saturating_sub(1);
                        self.buffer.delete_range_char(pos, 1);
                        self.scroll_into_view();
                        self.mark_redraw(true);
                    }
                    return;
                }
                let char_idx_in_line = view_line.grapheme_to_char_idx(self.location.grapheme_index);
                let grapheme_char_len = match view_line.grapheme_char_len(
                    self.location.grapheme_index,
                ) {
                    Some(len) => len,
                    None => 0,
                };
                let start = rope_line_to_char(&self.buffer.document, self.location.line_index);
                proof {
                    self.lemma_span_fits(loc);
                }
                let pos = start + char_idx_in_line;
                self.buffer.delete_range_char(pos, grapheme_char_len);
                self.scroll_into_view();
                self.mark_redraw(true);
            },
            None => {},
        }
    }

    /// Carries out `command` on the view.
    pub fn handle_command(&mut self, command: EditorCommand)
        requires
            old(self).wf(),
            old(self).can_handle(command),
        ensures
            final(self).wf(),
            final(self).handled_from(old(self), command),
    {
        match command {
            EditorCommand::Resize(size) => {
                self.resize(size);
            },
            EditorCommand::Move(direction) => {
                self.move_cursor(direction);
            },
            EditorCommand::Insert(c) => self.add_character(c),
            EditorCommand::Backspace => {
                self.remove_backward();
            },
            EditorCommand::Enter => {
                self.add_character('\n');
            },
            EditorCommand::Delete => {
                self.remove_forward();
            },
            EditorCommand::Esc
            | EditorCommand::Quit
            | EditorCommand::Ignore
            | EditorCommand::Save
            | EditorCommand::Search => {},
        }
    }

    /// Forgets the last search.
    pub fn clear_search(&mut self)
        requires
            old(self).wf(),
        ensures
            final(self).wf(),
            final(self).cleared_from(old(self)),
    {
        self.current_search_idx = None;
        self.search_locations = Vec::new();
        self.search_query = String::new();
        self.mark_redraw(true);
    }

    /// Moves the cursor to match `idx`, if there is one, and scrolls it into
    /// view.
    pub fn jump_to_match(&mut self, idx: usize)
        requires
            old(self).wf(),
        ensures
            final(self).wf(),
            idx < old(self).matches().len() ==> {
                &&& final(self).loc() == old(self).matches()[idx as int]
                &&& final(self).scroll() == scrolled(
                    old(self).text(),
                    final(self).loc(),
                    old(self).scroll(),
                    old(self).view_size(),
                ).0
                &&& final(self).redraw()
                &&& final(self).buf() == old(self).buf()
                &&& final(self).margin() == old(self).margin()
                &&& final(self).view_size() == old(self).view_size()
                &&& final(self).same_search(old(self))
            },
            idx >= old(self).matches().len() ==> *final(self) == *old(self),
    {
        if idx < self.search_locations.len() {
            self.location = self.search_locations[idx];
            self.scroll_into_view();
            self.mark_redraw(true);
        }
    }

    /// `self` is `old` with its search forgotten.
    pub open spec fn cleared_from(&self, old: &View) -> bool {
        &&& self.matches() == Seq::<Location>::empty()
        &&& self.current_match() == None::<usize>
        &&& self.query() == Seq::<char>::empty()
        &&& self.redraw()
        &&& self.buf() == old.buf()
        &&& self.margin() == old.margin()
        &&& self.view_size() == old.view_size()
        &&& self.loc() == old.loc()
        &&& self.scroll() == old.scroll()
    }

    /// `self` is `old` after a step to the next match (`forward`) or to the
    /// previous one; nothing changes when there is no match.
    pub open spec fn stepped_from(&self, old: &View, forward: bool) -> bool {
        let n = old.matches().len() as int;
        if n == 0 {
            *self == *old
        } else if forward {
            self.at_match(old, next_match(old.current_match(), n))
        } else {
            self.at_match(old, previous_match(old.current_match(), n))
        }
    }

    /// `self` is `old` after a search for `query`: the matches are
    /// remembered and the cursor is on the first one at or after it, else on
    /// the first one. An empty query, or one that does not occur, leaves no
    /// search behind.
    pub open spec fn searched_from(&self, old: &View, query: Seq<char>) -> bool {
        let t = old.text();
        let ms = match_locations(t, query);
        let first = match first_at_or_after(ms, old.loc(), 0) {
            Some(k) => k,
            None => 0,
        };
        &&& self.buf() == old.buf()
        &&& self.margin() == old.margin()
        &&& self.view_size() == old.view_size()
        &&& self.redraw()
        &&& if query.len() == 0 || ms.len() == 0 {
            &&& self.matches() == (if query.len() == 0 {
                Seq::<Location>::empty()
            } else {
                ms
            })
            &&& self.current_match() == None::<usize>
            &&& self.query() == Seq::<char>::empty()
            &&& self.loc() == old.loc()
            &&& self.scroll() == old.scroll()
        } else {
            &&& self.matches() == ms
            &&& self.current_match() == Some(first as usize)
            &&& self.query() == query
            &&& self.loc() == ms[first]
            &&& self.scroll() == scrolled(t, ms[first], old.scroll(), old.view_size()).0
        }
    }

    /// `self` is `old` with the cursor moved to match `idx`, which becomes
    /// the current one.
    pub open spec fn at_match(&self, old: &View, idx: int) -> bool {
        &&& self.current_match() == Some(idx as usize)
        &&& self.loc() == old.matches()[idx]
        &&& self.scroll() == scrolled(old.text(), self.loc(), old.scroll(), old.view_size()).0
        &&& self.redraw()
        &&& self.buf() == old.buf()
        &&& self.margin() == old.margin()
        &&& self.view_size() == old.view_size()
        &&& self.matches() == old.matches()
        &&& self.query() == old.query()
    }

    /// Moves to the next match, after the last one back to the first; the
    /// first one when none is current.
    pub fn find_next(&mut self)
        requires
            old(self).wf(),
        ensures
            final(self).wf(),
            final(self).stepped_from(old(self), true),
    {
        if self.search_locations.len() == 0 {
            return;
        }
        let new_idx = match self.current_search_idx {
            Some(idx) => (idx + 1) % self.search_locations.len(),
            None => 0,
        };
        self.current_search_idx = Some(new_idx);
        self.jump_to_match(new_idx);
    }

    /// Moves to the previous match, before the first one back to the last;
    /// the first one when none is current.
    pub fn find_previous(&mut self)
        requires
            old(self).wf(),
        ensures
            final(self).wf(),
            final(self).stepped_from(old(self), false),
    {
        if self.search_locations.len() == 0 {
            return;
        }
        let new_idx = match self.current_search_idx {
            Some(idx) => if idx == 0 {
                self.search_locations.len() - 1
            } else {
                idx - 1
            },
            None => 0,
        };
        self.current_search_idx = Some(new_idx);
        self.jump_to_match(new_idx);
    }

    /// Searches the document for `query`: remembers where it occurs and
    /// moves the cursor to the first occurrence at or after it, else to the
    /// first one. An empty query, or one that does not occur, leaves no
    /// search behind.
    pub fn search_document(&mut self, query: &str)
        requires
            old(self).wf(),
        ensures
            final(self).wf(),
            final(self).searched_from(old(self), query@),
    {
        if query.is_empty() {
            self.clear_search();
            return;
        }
        let ghost t = self.text();
        let ghost ms = match_locations(t, query@);
        let raw_results = self.buffer.search_document(query);
        proof {
            lemma_match_positions_bounds(t, query@, 0);
        }
        let mut locations: Vec<Location> = Vec::new();
        let mut k: usize = 0;
        while k < raw_results.len()
            invariant
                k <= raw_results@.len(),
                raw_results@ == search_results(t, query@),
                t == self.text(),
                t.len() <= usize::MAX,
                ms == match_locations(t, query@),
                locations@ == ms.take(k as int),
                forall|m: int|
                    0 <= m < match_positions(t, query@, 0).len() ==> 0 <= #[trigger] match_positions(
                        t,
                        query@,
                        0,
                    )[m] <= t.len(),
            decreases raw_results@.len() - k,
        {
            let (line_index, char_idx_line) = raw_results[k];
            let ghost c = match_positions(t, query@, 0)[k as int];
            proof {
                assert(0 <= c <= t.len());
                lemma_breaks_up_to_monotonic(t, c, t.len() as int);
                lemma_breaks_up_to_bound(t, c);
            }
            match self.buffer.get_line(line_index) {
                Some(line_slice) => {
                    let grapheme_index = plain_line(line_slice).char_to_grapheme_idx(char_idx_line);
                    locations.push(Location { grapheme_index, line_index });
                },
                None => {},
            }
            assert(ms.take(k + 1) =~= ms.take(k as int).push(ms[k as int]));
            k += 1;
        }
        assert(ms.take(ms.len() as int) =~= ms);
        self.current_search_idx = None;
        self.search_locations = locations;
        self.search_query = query.to_owned();
        self.mark_redraw(true);

        if self.search_locations.len() == 0 {
            self.current_search_idx = None;
            self.search_query = String::new();
            return;
        }

        let start_position = self.location;
        proof {
            lemma_first_at_or_after(ms, start_position, 0);
        }
        let new_idx = first_location_at_or_after(&self.search_locations, start_position);
        let final_idx = match new_idx {
            Some(idx) => idx,
            None => 0,
        };
        self.current_search_idx = Some(final_idx);
        self.jump_to_match(final_idx);
        self.mark_redraw(true);
    }

    /// Moves the cursor in `direction` (a page is the rows of text that the
    /// view shows) and scrolls it into view.
    pub fn move_cursor(&mut self, direction: Direction)
        ensures
            final(self).loc() == moved(
                old(self).text(),
                old(self).loc(),
                direction,
                old(self).view_size().height,
            ),
            (final(self).scroll(), final(self).redraw()) == scrolled(
                old(self).text(),
                final(self).loc(),
                old(self).scroll(),
                old(self).view_size(),
            ),
            final(self).buf() == old(self).buf(),
            final(self).margin() == old(self).margin(),
            final(self).view_size() == old(self).view_size(),
            final(self).same_search(old(self)),
    {
        match direction {
            Direction::Up => self.move_up(1),
            Direction::Down => self.move_down(1),
            Direction::Left => self.move_left(),
            Direction::Right => self.move_right(),
            Direction::PageUp => self.move_up(self.size.height),
            Direction::PageDown => self.move_down(self.size.height),
            Direction::Home => self.move_to_line_start(),
            Direction::End => self.move_to_line_end(),
        }
        self.scroll_into_view();
    }

    /// Moves the scroll offset so that the cursor is on screen, and marks
    /// the view for drawing exactly when the offset changed.
    pub fn scroll_into_view(&mut self)
        ensures
            (final(self).scroll(), final(self).redraw()) == scrolled(
                old(self).text(),
                old(self).loc(),
                old(self).scroll(),
                old(self).view_size(),
            ),
            final(self).buf() == old(self).buf(),
            final(self).margin() == old(self).margin(),
            final(self).view_size() == old(self).view_size(),
            final(self).loc() == old(self).loc(),
            final(self).same_search(old(self)),
    {
        let row = self.location.line_index as u16;
        let col = match self.buffer.get_line(row as usize) {
            Some(line) => plain_line(line).width_until(self.location.grapheme_index) as u16,
            None => 0,
        };
        let width = self.size.width;
        let height = self.size.height;
        let mut offset_changed = false;

        // vertical
        if row < self.scroll_offset.row {
            self.scroll_offset.row = row;
            offset_changed = true;
        } else if row >= self.scroll_offset.row.saturating_add(height) {
            self.scroll_offset.row = row.saturating_sub(height).saturating_add(1);
            offset_changed = true;
        }
        if col < self.scroll_offset.col {
            self.scroll_offset.col = col;
            offset_changed = true;
        } else if col >= self.scroll_offset.col.saturating_add(width) {
            self.scroll_offset.col = col.saturating_sub(width).saturating_add(1);
            offset_changed = true;
        }
        self.mark_redraw(offset_changed);
    }

    /// The view's size for a terminal of `size`, less the bottom margin,
    /// with the cursor scrolled into view and the view marked for drawing.
    pub fn resize(&mut self, size: Size)
        ensures
            final(self).view_size() == (Size {
                width: size.width,
                height: sat_sub(size.height as int, old(self).margin() as u16 as int) as u16,
            }),
            final(self).scroll() == scrolled(
                old(self).text(),
                old(self).loc(),
                old(self).scroll(),
                final(self).view_size(),
            ).0,
            final(self).redraw(),
            final(self).buf() == old(self).buf(),
            final(self).margin() == old(self).margin(),
            final(self).loc() == old(self).loc(),
            final(self).same_search(old(self)),
    {
        self.size = Size {
            width: size.width,
            height: size.height.saturating_sub(self.margin_bottom as u16),
        };
        self.scroll_into_view();
        self.mark_redraw(true);
    }

    /// Sets the view's size as it is, and scrolls the cursor into view.
    pub fn set_size(&mut self, size: Size)
        ensures
            final(self).view_size() == size,
            (final(self).scroll(), final(self).redraw()) == scrolled(
                old(self).text(),
                old(self).loc(),
                old(self).scroll(),
                size,
            ),
            final(self).buf() == old(self).buf(),
            final(self).margin() == old(self).margin(),
            final(self).loc() == old(self).loc(),
            final(self).same_search(old(self)),
    {
        self.size = size;
        self.scroll_into_view();
    }

    /// The number of lines, the cursor's line and whether the document
    /// changed since it was saved.
    pub fn get_status(&self) -> (status: ViewStatus)
        ensures
            status == (ViewStatus {
                total_lines: line_count(self.text()) as usize,
                current_line_idx: self.loc().line_index,
                is_modified: self.buf().is_dirty,
            }),
    {
        ViewStatus {
            total_lines: self.buffer.line_count(),
            current_line_idx: self.location.line_index,
            is_modified: self.buffer.is_dirty,
        }
    }

    /// What screen row `r` shows: `None` for a row past the end of the text,
    /// else the segments of the visible part of its line, with the matches of
    /// the search highlighted.
    #[verifier::spinoff_prover]
    #[verifier::rlimit(40)]
    pub fn render_line(&self, r: u16) -> (row: Option<Vec<Segment>>)
        ensures
            match row {
                None => row_view(
                    self.text(),
                    r,
                    self.scroll(),
                    self.view_size(),
                    self.matches(),
                    self.query(),
                    self.current_match(),
                ) is None,
                Some(segments) => row_view(
                    self.text(),
                    r,
                    self.scroll(),
                    self.view_size(),
                    self.matches(),
                    self.query(),
                    self.current_match(),
                ) == Some(segment_views(segments@)),
            },
    {
        let top = self.scroll_offset.row;
        let line_index = r.saturating_add(top) as usize;
        let line_slice = match self.buffer.get_line(line_index) {
            Some(slice) => slice,
            None => return None,
        };
        let line = plain_line(line_slice);
        let ghost gs = line_graphemes(self.text(), line_index as int);
        let query_config = LanguageConfig::text();
        let query_line = Line::get_fragments_from_string(self.search_query.as_str(), &query_config);
        proof {
            lemma_line_model(query_line.fragments@);
            assert(fragment_texts(query_line.fragments@) =~= plain_graphemes(self.query()));
        }
        let query_grapheme_len = query_line.grapheme_count();
        let visible_grapheme_start = self.scroll_offset.col;
        let visible_grapheme_end = visible_grapheme_start.saturating_add(self.size.width);
        let matches_on_line = self.matches_on_line(line_index);
        let mut segments: Vec<Segment> = Vec::new();
        if matches_on_line.len() == 0 {
            let to_print = line.get_visible_graphemes(
                visible_grapheme_start as usize..visible_grapheme_end as usize,
            );
            segments.push(Segment { text: to_print, highlight: None });
            assert(segment_views(segments@) =~= seq![
                (drawn_range(gs, visible_grapheme_start as int, visible_grapheme_end as int), None::<MatchHighlight>),
            ]);
            return Some(segments);
        }
        let ghost on_line = matches_on_line@;
        let mut current_grapheme_idx: usize = 0;
        let mut k: usize = 0;
        while k < matches_on_line.len()
            invariant
                k <= matches_on_line@.len(),
                on_line == matches_on_line@,
                gs == fragment_texts(line.fragments@),
                forall|m: int| 0 <= m < line.fragments@.len() ==> #[trigger] line.fragments@[m].rendered_right(),
                segment_views(segments@) + row_segments(
                    gs,
                    on_line.map_values(|p: (usize, Location)| (p.0 as int, p.1)),
                    k as int,
                    current_grapheme_idx as int,
                    query_grapheme_len as int,
                    visible_grapheme_start as int,
                    visible_grapheme_end as int,
                    self.current_match(),
                ) == row_segments(
                    gs,
                    on_line.map_values(|p: (usize, Location)| (p.0 as int, p.1)),
                    0,
                    0,
                    query_grapheme_len as int,
                    visible_grapheme_start as int,
                    visible_grapheme_end as int,
                    self.current_match(),
                ),
            decreases matches_on_line@.len() - k,
        {
            let (match_list_idx, location) = matches_on_line[k];
            let match_start = location.grapheme_index;
            let match_end = match_start.saturating_add(query_grapheme_len);
            let ghost before = segment_views(segments@);
            View::render_segment(
                &mut segments,
                &line,
                current_grapheme_idx,
                match_start,
                visible_grapheme_start as usize,
                visible_grapheme_end as usize,
                None,
            );
            let highlight_color = if self.current_search_idx == Some(match_list_idx) {
                MatchHighlight::Current
            } else {
                MatchHighlight::Other
            };
            View::render_segment(
                &mut segments,
                &line,
                match_start,
                match_end,
                visible_grapheme_start as usize,
                visible_grapheme_end as usize,
                Some(highlight_color),
            );
            current_grapheme_idx = match_end;
            k += 1;
        }
        View::render_segment(
            &mut segments,
            &line,
            current_grapheme_idx,
            line.grapheme_count(),
            visible_grapheme_start as usize,
            visible_grapheme_end as usize,
            None,
        );
        Some(segments)
    }

    /// The matches of the search on line `line_index`, with their indices.
    fn matches_on_line(&self, line_index: usize) -> (on_line: Vec<(usize, Location)>)
        ensures
            on_line@.map_values(|p: (usize, Location)| (p.0 as int, p.1)) == matches_on_line(
                self.matches(),
                line_index as int,
                0,
            ),
    {
        let mut on_line: Vec<(usize, Location)> = Vec::new();
        let mut k = self.search_locations.len();
        while k > 0
            invariant
                k <= self.search_locations@.len(),
                on_line@.map_values(|p: (usize, Location)| (p.0 as int, p.1)) == matches_on_line(
                    self.matches(),
                    line_index as int,
                    k as int,
                ),
            decreases k,
        {
            k -= 1;
            let location = self.search_locations[k];
            if location.line_index == line_index {
                let ghost before = on_line@;
                on_line.insert(0, (k, location));
                assert(on_line@.map_values(|p: (usize, Location)| (p.0 as int, p.1)) =~= seq![
                    (k as int, location),
                ] + before.map_values(|p: (usize, Location)| (p.0 as int, p.1)));
            }
        }
        on_line
    }

    /// Appends the part of graphemes `from_grapheme` up to `to_grapheme` that
    /// lies between `visible_start` and `visible_end`, if any.
    fn render_segment(
        segments: &mut Vec<Segment>,
        line: &Line,
        from_grapheme: usize,
        to_grapheme: usize,
        visible_start: usize,
        visible_end: usize,
        highlight_color: Option<MatchHighlight>,
    )
        requires
            forall|m: int| 0 <= m < line.fragments@.len() ==> #[trigger] line.fragments@[m].rendered_right(),
        ensures
            segment_views(final(segments)@) == segment_views(old(segments)@) + segment_of(
                fragment_texts(line.fragments@),
                from_grapheme as int,
                to_grapheme as int,
                visible_start as int,
                visible_end as int,
                highlight_color,
            ),
    {
        let ghost before = segments@;
        if from_grapheme >= to_grapheme {
            assert(segment_views(segments@) =~= segment_views(before) + Seq::empty());
            return;
        }
        let visible_from = if from_grapheme > visible_start {
            from_grapheme
        } else {
            visible_start
        };
        let visible_to = if to_grapheme < visible_end {
            to_grapheme
        } else {
            visible_end
        };
        if visible_from >= visible_to {
            assert(segment_views(segments@) =~= segment_views(before) + Seq::empty());
            return;
        }
        let text_to_print = line.get_graphemes_in_range(visible_from, visible_to);
        segments.push(Segment { text: text_to_print, highlight: highlight_color });
        assert(segment_views(segments@) =~= segment_views(before) + seq![
            (text_to_print@, highlight_color),
        ]);
    }

    /// The first and the end screen row to draw the view on, from row
    /// `origin_y` of a terminal `terminal_height` rows high, leaving the bottom
    /// margin free.
    pub fn rows_to_draw(&self, origin_y: usize, terminal_height: u16) -> (rows: (u16, u16))
        ensures
            rows.0 == origin_y as u16,
            rows.1 == sat_sub(
                sat_add_u16(origin_y as u16 as int, terminal_height as int) as int,
                self.margin() as u16 as int,
            ),
    {
        let start = origin_y as u16;
        (start, start.saturating_add(terminal_height).saturating_sub(self.margin_bottom as u16))
    }

    /// The welcome text cut to the width of a terminal of `terminal_size`,
    /// and where it is drawn: centred across the terminal, a third of the
    /// way down.
    pub fn welcome_message(terminal_size: Size) -> (message: (String, Position))
        ensures
            ({
                let n = if welcome_text().len() <= terminal_size.width {
                    welcome_text().len() as int
                } else {
                    terminal_size.width as int
                };
                &&& message.0@ == welcome_text().take(n)
                &&& message.1 == (Position {
                    col: sat_sub((terminal_size.width / 2) as int, n / 2) as u16,
                    row: (terminal_size.height / 3) as u16,
                })
            }),
    {
        let mut full = String::new();
        full.append(NAME);
        full.append(" editor - version ");
        full.append(VERSION);
        proof {
            reveal_strlit("rustle");
            reveal_strlit("0.1.0");
            reveal_strlit(" editor - version ");
            assert(full@ =~= welcome_text());
        }
        let chars = chars_of(full.as_str());
        let width = terminal_size.width as usize;
        let mut message = String::new();
        let mut k: usize = 0;
        while k < chars.len() && k < width
            invariant
                k <= chars@.len(),
                k <= width,
                chars@ == welcome_text(),
                message@ == welcome_text().take(k as int),
            decreases chars@.len() - k,
        {
            push_char(&mut message, chars[k]);
            assert(message@ =~= welcome_text().take(k + 1));
            k += 1;
        }
        let col = (terminal_size.width / 2).saturating_sub((k / 2) as u16);
        (message, Position { col, row: terminal_size.height / 3 })
    }

    /// Where the cursor is on screen: its cell less the scroll offset.
    pub open spec fn screen_position(&self) -> Position {
        Position {
            row: sat_sub(self.loc().line_index as u16 as int, self.scroll().row as int) as u16,
            col: sat_sub(
                cursor_columns(
                    self.text(),
                    self.loc().line_index as int,
                    self.loc().grapheme_index as int,
                ) as u16 as int,
                self.scroll().col as int,
            ) as u16,
        }
    }

    /// Where the cursor is on screen.
    pub fn get_position(&self) -> (position: Position)
        ensures
            position == self.screen_position(),
    {
        let row = self.location.line_index;
        let col = match self.buffer.get_line(row) {
            Some(line) => plain_line(line).width_until(self.location.grapheme_index),
            None => 0,
        };
        let pos = Position { col: col as u16, row: row as u16 };
        pos.saturating_sub(self.scroll_offset)
    }
}

/// Scrolling along one axis brings the cursor into the window: on a window
/// of at least one cell, the new offset is at most the cursor's cell, and
/// the cell lies less than the window's extent past it.
pub proof fn lemma_scroll_axis_shows(pos: u16, offset: u16, extent: u16)
    requires
        extent > 0,
    ensures
        scroll_axis(pos, offset, extent).0 <= pos < scroll_axis(pos, offset, extent).0 + extent,
{
}

/// The cursor is on screen once scrolled into view: on a view of at least
/// one row and one column whose scroll offset was chosen to show the cursor
/// (as every operation that moves it or changes the text does), its screen
/// position lies inside the view. (Row numbers are 16 bits wide, so this is
/// stated of the first 65536 lines.)
pub proof fn lemma_cursor_on_screen(v: View, offset: Position)
    requires
        v.view_size().height > 0,
        v.view_size().width > 0,
        v.loc().line_index <= u16::MAX,
        v.scroll() == scrolled(v.text(), v.loc(), offset, v.view_size()).0,
    ensures
        v.screen_position().row < v.view_size().height,
        v.screen_position().col < v.view_size().width,
{
    let row = v.loc().line_index as u16;
    let col = cursor_columns(v.text(), row as int, v.loc().grapheme_index as int) as u16;
    lemma_scroll_axis_shows(row, offset.row, v.view_size().height);
    lemma_scroll_axis_shows(col, offset.col, v.view_size().width);
}

/// A search lands on the first match at or after the cursor: there is one
/// exactly when some match lies at or after the cursor, it does, and every
/// match listed before it lies before the cursor.
pub proof fn lemma_search_lands_after_cursor(locs: Seq<Location>, start: Location)
    ensures
        first_at_or_after(locs, start, 0) is Some <==> exists|k: int|
            0 <= k < locs.len() && at_or_after(#[trigger] locs[k], start),
        first_at_or_after(locs, start, 0) matches Some(j) ==> {
            &&& 0 <= j < locs.len()
            &&& at_or_after(locs[j], start)
            &&& forall|i: int| 0 <= i < j ==> !at_or_after(#[trigger] locs[i], start)
        },
{
    lemma_first_at_or_after_from(locs, start, 0);
}

/// What the first match at or after a location is, searching from `k` on.
proof fn lemma_first_at_or_after_from(locs: Seq<Location>, start: Location, k: int)
    requires
        0 <= k,
    ensures
        first_at_or_after(locs, start, k) is Some <==> exists|m: int|
            k <= m < locs.len() && at_or_after(#[trigger] locs[m], start),
        first_at_or_after(locs, start, k) matches Some(j) ==> {
            &&& k <= j < locs.len()
            &&& at_or_after(locs[j], start)
            &&& forall|i: int| k <= i < j ==> !at_or_after(#[trigger] locs[i], start)
        },
    decreases locs.len() - k,
{
    if k < locs.len() && !at_or_after(locs[k], start) {
        lemma_first_at_or_after_from(locs, start, k + 1);
        if exists|m: int| k <= m < locs.len() && at_or_after(#[trigger] locs[m], start) {
            let m = choose|m: int| k <= m < locs.len() && at_or_after(#[trigger] locs[m], start);
            assert(m != k);
        }
    }
}

/// `a % n` for `a` between 0 and `n`.
proof fn lemma_mod_small(a: int, n: int)
    requires
        0 <= a <= n,
        n > 0,
    ensures
        a % n == if a == n {
            0
        } else {
            a
        },
{
    if a == n {
        assert(n % n == 0) by (nonlinear_arith)
            requires
                n > 0,
        ;
    } else {
        assert(a % n == a) by (nonlinear_arith)
            requires
                0 <= a < n,
        ;
    }
}

/// Going to the previous match undoes going to the next one: after
/// `find_next` then `find_previous` the same match is current again, with
/// the cursor on it.
pub proof fn lemma_previous_undoes_next(v0: View, v1: View, v2: View)
    requires
        v0.wf(),
        v0.matches().len() > 0,
        v0.current_match() is Some,
        v1.stepped_from(&v0, true),
        v2.stepped_from(&v1, false),
    ensures
        v2.current_match() == v0.current_match(),
        v2.loc() == v0.matches()[v0.current_match()->0 as int],
        v2.matches() == v0.matches(),
{
    lemma_mod_small(v0.current_match()->0 + 1, v0.matches().len() as int);
}

/// Going to the next match undoes going to the previous one: after
/// `find_previous` then `find_next` the same match is current again, with
/// the cursor on it.
pub proof fn lemma_next_undoes_previous(v0: View, v1: View, v2: View)
    requires
        v0.wf(),
        v0.matches().len() > 0,
        v0.current_match() is Some,
        v1.stepped_from(&v0, false),
        v2.stepped_from(&v1, true),
    ensures
        v2.current_match() == v0.current_match(),
        v2.loc() == v0.matches()[v0.current_match()->0 as int],
        v2.matches() == v0.matches(),
{
    let i = v0.current_match()->0 as int;
    let n = v0.matches().len() as int;
    if i == 0 {
        lemma_mod_small(n, n);
    } else {
        lemma_mod_small(i, n);
    }
}

/// Search wraps around: from the last match `find_next` goes to the first,
/// and from the first `find_previous` goes to the last.
pub proof fn lemma_search_wraps_around(n: int)
    requires
        n > 0,
        n <= usize::MAX,
    ensures
        next_match(Some((n - 1) as usize), n) == 0,
        previous_match(Some(0usize), n) == n - 1,
{
    lemma_mod_small(n, n);
}

/// Backspace undoes typing: after a char is typed and then deleted with
/// backspace, the text and the cursor are as they were. This holds for a
/// char that is no line break, typed at a cursor that stands within its
/// line, where the char forms a grapheme of its own (a combining mark would
/// join the grapheme before it, and backspace would take both).
pub proof fn lemma_backspace_undoes_typing(v0: View, v1: View, v2: View, c: char)
    requires
        v0.wf(),
        v0.can_type(c),
        !is_line_break_char(c),
        has_line(v0.text(), v0.loc().line_index as int),
        v0.loc().grapheme_index <= line_length(v0.text(), v0.loc().line_index as int),
        v1.typed_from(&v0, c),
        line_graphemes(v1.text(), v0.loc().line_index as int) == line_graphemes(
            v0.text(),
            v0.loc().line_index as int,
        ).insert(v0.loc().grapheme_index as int, seq![c]),
        v2.backspaced_from(&v1),
    ensures
        v2.text() == v0.text(),
        v2.loc() == v0.loc(),
{
    let t0 = v0.text();
    let t1 = v1.text();
    let i = v0.loc().line_index as int;
    let g = v0.loc().grapheme_index as int;
    let gs0 = line_graphemes(t0, i);
    let gs1 = line_graphemes(t1, i);
    let p = insert_position(t0, v0.loc());
    lemma_line_start(t0, i as nat);
    assert(clamp_to(gs0, g) == g);
    assert(keeps_break_at(t0, p, c));
    lemma_insert_line_start(t0, p, c, i as nat);
    if i > 0 {
        lemma_line_start_breaks(t0, i as nat);
        lemma_insert_breaks_grow(t0, p, c, line_start(t0, i as nat));
        lemma_breaks_up_to_monotonic(t1, line_start(t0, i as nat), t1.len() as int);
    }
    assert(has_line(t1, i));
    lemma_chars_before(gs0, g);
    lemma_chars_before(gs1, g);
    assert(gs1.take(g) =~= gs0.take(g));
    let left = moved_left(t1, v1.loc());
    assert(left == v0.loc());
    assert(grapheme_span(t1, left) == (p, 1int));
    assert(without(t1, p, 1) =~= t0);
}

/// A line feed is drawn replaced, whatever its width and class.
proof fn lemma_line_feed_replaced()
    ensures
        replacement_for(seq!['\n']) is Some,
{
    let g = seq!['\n'];
    assert(g[0] == '\n');
    assert(g != seq![' ']) by {
        assert(seq![' '][0] == ' ');
    }
    assert(g != seq!['\t']) by {
        assert(seq!['\t'][0] == '\t');
    }
    assert(g.len() == 1 && is_control_char(g[0]));
}

/// Backspace undoes Enter: after the line is split at the cursor and the
/// new break is deleted with backspace, the text and the cursor are as they
/// were. This holds for a cursor that stands within its line and not right
/// after a carriage return (a line feed typed there would join it into one
/// break), where the new break forms a grapheme of its own at the end of the
/// first half of the line.
pub proof fn lemma_backspace_undoes_enter(v0: View, v1: View, v2: View)
    requires
        v0.wf(),
        v0.can_type('\n'),
        has_line(v0.text(), v0.loc().line_index as int),
        v0.loc().grapheme_index <= line_length(v0.text(), v0.loc().line_index as int),
        keeps_break_at(v0.text(), insert_position(v0.text(), v0.loc()), '\n'),
        v1.typed_from(&v0, '\n'),
        line_graphemes(v1.text(), v0.loc().line_index as int) == line_graphemes(
            v0.text(),
            v0.loc().line_index as int,
        ).take(v0.loc().grapheme_index as int).push(seq!['\n']),
        v2.backspaced_from(&v1),
    ensures
        v2.text() == v0.text(),
        v2.loc() == v0.loc(),
{
    let t0 = v0.text();
    let t1 = v1.text();
    let i = v0.loc().line_index as int;
    let g = v0.loc().grapheme_index as int;
    let gs0 = line_graphemes(t0, i);
    let gs1 = line_graphemes(t1, i);
    let p = insert_position(t0, v0.loc());
    lemma_line_start(t0, i as nat);
    assert(clamp_to(gs0, g) == g);
    lemma_insert_line_start(t0, p, '\n', i as nat);
    if i > 0 {
        lemma_line_start_breaks(t0, i as nat);
        lemma_insert_breaks_grow(t0, p, '\n', line_start(t0, i as nat));
        lemma_breaks_up_to_monotonic(t1, line_start(t0, i as nat), t1.len() as int);
    }
    assert(has_line(t1, i));
    lemma_line_feed_replaced();
    assert(line_length(t1, i) == g);
    lemma_chars_before(gs0, g);
    lemma_chars_before(gs1, g);
    assert(gs1.take(g) =~= gs0.take(g));
    let left = moved_left(t1, v1.loc());
    assert(left == v0.loc());
    assert(grapheme_span(t1, left) == (p, 1int));
    assert(without(t1, p, 1) =~= t0);
}

/// Left undoes Right: from a cursor within its line, anywhere but the end of
/// the last line, a move right and then a move left bring the cursor back,
/// also across the end of a line. (The grapheme index stays below
/// `usize::MAX`, so that the move right does not overflow it.)
pub proof fn lemma_left_undoes_right(v0: View, v1: View, v2: View)
    requires
        v0.wf(),
        has_line(v0.text(), v0.loc().line_index as int),
        v0.loc().grapheme_index <= line_length(v0.text(), v0.loc().line_index as int),
        v0.loc().grapheme_index < usize::MAX,
        !(v0.loc().line_index == line_count(v0.text()) - 1 && v0.loc().grapheme_index
            == line_length(v0.text(), v0.loc().line_index as int)),
        v1.moved_from(&v0, Direction::Right),
        v2.moved_from(&v1, Direction::Left),
    ensures
        v2.loc() == v0.loc(),
{
    let t = v0.text();
    let l = v0.loc().line_index as int;
    let g = v0.loc().grapheme_index as int;
    lemma_breaks_up_to_bound(t, t.len() as int);
    if g == line_length(t, l) {
        assert(v1.loc() == at(l + 1, 0));
        assert(moved_up(t, v1.loc(), 1) == at(l, 0));
    } else {
        assert(v1.loc() == at(l, g + 1));
    }
}

/// A search goes to the first match at or after the cursor, else to the
/// first match: when the search finds matches, the current match is the one
/// the cursor is on; if some match lies at or after the old cursor (on a
/// later line, or on its line at or after its grapheme), the cursor lands at
/// or after it and every match listed before lies before it; otherwise the
/// first match is current.
pub proof fn lemma_search_picks_first_match_from_cursor(v0: View, v1: View, query: Seq<char>)
    requires
        v1.wf(),
        v1.searched_from(&v0, query),
        v1.matches().len() > 0,
    ensures
        v1.current_match() is Some,
        ({
            let ms = v1.matches();
            let c = v0.loc();
            let i = v1.current_match()->0 as int;
            &&& 0 <= i < ms.len()
            &&& v1.loc() == ms[i]
            &&& (exists|k: int|
                0 <= k < ms.len() && (#[trigger] ms[k].line_index > c.line_index || (
                ms[k].line_index == c.line_index && ms[k].grapheme_index >= c.grapheme_index)))
                ==> {
                &&& (v1.loc().line_index > c.line_index || (v1.loc().line_index == c.line_index
                    && v1.loc().grapheme_index >= c.grapheme_index))
                &&& forall|k: int|
                    0 <= k < i ==> !(#[trigger] ms[k].line_index > c.line_index || (
                    ms[k].line_index == c.line_index && ms[k].grapheme_index
                        >= c.grapheme_index))
            }
            &&& !(exists|k: int|
                0 <= k < ms.len() && (#[trigger] ms[k].line_index > c.line_index || (
                ms[k].line_index == c.line_index && ms[k].grapheme_index >= c.grapheme_index)))
                ==> i == 0
        }),
{
    let ms = v1.matches();
    let c = v0.loc();
    assert(query.len() > 0 && match_locations(v0.text(), query).len() > 0);
    assert(ms == match_locations(v0.text(), query));
    lemma_search_lands_after_cursor(ms, c);
    lemma_first_at_or_after(ms, c, 0);
    let i = v1.current_match()->0 as int;
    match first_at_or_after(ms, c, 0) {
        Some(j) => {
            assert(i == j);
            assert(at_or_after(ms[j], c));
            assert forall|k: int| 0 <= k < i implies !(#[trigger] ms[k].line_index > c.line_index
                || (ms[k].line_index == c.line_index && ms[k].grapheme_index
                >= c.grapheme_index)) by {
                assert(!at_or_after(ms[k], c));
            }
        },
        None => {
            assert(i == 0);
            assert forall|k: int| 0 <= k < ms.len() implies !(#[trigger] ms[k].line_index
                > c.line_index || (ms[k].line_index == c.line_index && ms[k].grapheme_index
                >= c.grapheme_index)) by {
                if at_or_after(ms[k], c) {
                    assert(exists|m: int| 0 <= m < ms.len() && at_or_after(#[trigger] ms[m], c));
                }
            }
        },
    }
}

/// Each segment of `row_segments` is the drawing of a run of graphemes that
/// lies within `lo..hi`.
proof fn lemma_row_segments_within(
    gs: Seq<Seq<char>>,
    on_line: Seq<(int, Location)>,
    k: int,
    from: int,
    match_len: int,
    lo: int,
    hi: int,
    current: Option<usize>,
)
    ensures
        forall|m: int|
            0 <= m < row_segments(gs, on_line, k, from, match_len, lo, hi, current).len()
                ==> exists|a: int, b: int|
                lo <= a <= b <= hi && (#[trigger] row_segments(
                    gs,
                    on_line,
                    k,
                    from,
                    match_len,
                    lo,
                    hi,
                    current,
                )[m]).0 == drawn_range(gs, a, b),
    decreases on_line.len() - k,
{
    let segs = row_segments(gs, on_line, k, from, match_len, lo, hi, current);
    if k < 0 || k >= on_line.len() {
        lemma_segment_of_within(gs, from, visible_count(gs) as int, lo, hi, None);
    } else {
        let (idx, loc) = on_line[k];
        let start = loc.grapheme_index as int;
        let end = sat_add(start, match_len);
        let highlight = if current == Some(idx as usize) {
            MatchHighlight::Current
        } else {
            MatchHighlight::Other
        };
        let s1 = segment_of(gs, from, start, lo, hi, None);
        let s2 = segment_of(gs, start, end, lo, hi, Some(highlight));
        let s3 = row_segments(gs, on_line, k + 1, end, match_len, lo, hi, current);
        lemma_segment_of_within(gs, from, start, lo, hi, None);
        lemma_segment_of_within(gs, start, end, lo, hi, Some(highlight));
        lemma_row_segments_within(gs, on_line, k + 1, end, match_len, lo, hi, current);
        assert(segs == s1 + s2 + s3);
        assert forall|m: int| 0 <= m < segs.len() implies exists|a: int, b: int|
            lo <= a <= b <= hi && (#[trigger] segs[m]).0 == drawn_range(gs, a, b) by {
            if m < s1.len() {
                assert(segs[m] == s1[m]);
            } else if m < s1.len() + s2.len() {
                assert(segs[m] == s2[m - s1.len()]);
            } else {
                assert(segs[m] == s3[m - s1.len() - s2.len()]);
            }
        }
    }
}

/// A segment of graphemes `from..to` is the drawing of a run within `lo..hi`.
proof fn lemma_segment_of_within(
    gs: Seq<Seq<char>>,
    from: int,
    to: int,
    lo: int,
    hi: int,
    highlight: Option<MatchHighlight>,
)
    ensures
        forall|m: int|
            0 <= m < segment_of(gs, from, to, lo, hi, highlight).len() ==> exists|a: int, b: int|
                lo <= a <= b <= hi && (#[trigger] segment_of(gs, from, to, lo, hi, highlight)[m]).0
                    == drawn_range(gs, a, b),
{
    let segs = segment_of(gs, from, to, lo, hi, highlight);
    if segs.len() > 0 {
        let a = if from > lo {
            from
        } else {
            lo
        };
        let b = if to < hi {
            to
        } else {
            hi
        };
        assert(segs[0].0 == drawn_range(gs, a, b));
    }
}

/// A drawn row shows only what lies in the view's columns: every segment
/// of the row is the drawing of a run of graphemes of its line between the
/// scroll column and the scroll column plus the view's width.
pub proof fn lemma_rendered_row_is_visible(
    v: View,
    r: u16,
    segments: Seq<(Seq<char>, Option<MatchHighlight>)>,
)
    requires
        row_view(v.text(), r, v.scroll(), v.view_size(), v.matches(), v.query(), v.current_match())
            == Some(segments),
    ensures
        ({
            let line = sat_add_u16(r as int, v.scroll().row as int) as int;
            let lo = v.scroll().col as int;
            let hi = sat_add_u16(v.scroll().col as int, v.view_size().width as int) as int;
            forall|m: int|
                0 <= m < segments.len() ==> exists|a: int, b: int|
                    lo <= a <= b <= hi && (#[trigger] segments[m]).0 == drawn_range(
                        line_graphemes(v.text(), line),
                        a,
                        b,
                    )
        }),
{
    let t = v.text();
    let line = sat_add_u16(r as int, v.scroll().row as int) as int;
    let lo = v.scroll().col as int;
    let hi = sat_add_u16(v.scroll().col as int, v.view_size().width as int) as int;
    let gs = line_graphemes(t, line);
    let on_line = matches_on_line(v.matches(), line, 0);
    if on_line.len() == 0 {
        assert forall|m: int| 0 <= m < segments.len() implies exists|a: int, b: int|
            lo <= a <= b <= hi && (#[trigger] segments[m]).0 == drawn_range(gs, a, b) by {
            assert(segments[m].0 == drawn_range(gs, lo, hi));
        }
    } else {
        lemma_row_segments_within(
            gs,
            on_line,
            0,
            0,
            visible_count(plain_graphemes(v.query())) as int,
            lo,
            hi,
            v.current_match(),
        );
    }
}

/// Up and Down hold the grapheme index alike: after a move up or down by
/// any steps, the index becomes the smaller of itself and the length of the
/// line whose index equals it, or 0 when there is no such line.
pub proof fn lemma_vertical_moves_clamp_alike(t: Seq<char>, loc: Location, up: int, down: int)
    ensures
        moved_up(t, loc, up).grapheme_index == moved_down(t, loc, down).grapheme_index,
        moved_up(t, loc, up).grapheme_index == if has_line(t, loc.grapheme_index as int) {
            if line_length(t, loc.grapheme_index as int) < loc.grapheme_index {
                line_length(t, loc.grapheme_index as int) as usize
            } else {
                loc.grapheme_index
            }
        } else {
            0usize
        },
        moved_up(t, loc, up).line_index == sat_sub(loc.line_index as int, up) as usize,
{
}

/// Scrolling moves nothing while the cursor is already in view: when the
/// cursor's cell lies in the window (which does not run past `u16::MAX`),
/// the offset stays and nothing is marked changed.
pub proof fn lemma_scroll_stays_when_visible(pos: u16, offset: u16, extent: u16)
    requires
        offset <= pos < offset + extent,
        offset + extent <= u16::MAX,
    ensures
        scroll_axis(pos, offset, extent) == (offset, false),
{
}

/// PageUp goes up one screen of text, stopping at the first line; PageDown
/// goes down one screen, stopping at the last line; both keep the line's
/// column as Up and Down do.
pub proof fn lemma_page_moves(t: Seq<char>, loc: Location, height: u16)
    requires
        t.len() < usize::MAX,
    ensures
        moved(t, loc, Direction::PageUp, height).line_index == sat_sub(
            loc.line_index as int,
            height as int,
        ),
        moved(t, loc, Direction::PageDown, height).line_index == if loc.line_index + height
            < line_count(t) - 1 {
            loc.line_index + height
        } else {
            line_count(t) - 1
        },
        moved(t, loc, Direction::PageUp, height).grapheme_index == moved(
            t,
            loc,
            Direction::Up,
            height,
        ).grapheme_index,
        moved(t, loc, Direction::PageDown, height).grapheme_index == moved(
            t,
            loc,
            Direction::Down,
            height,
        ).grapheme_index,
{
    lemma_breaks_up_to_bound(t, t.len() as int);
}

} // verus!
