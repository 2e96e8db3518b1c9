use vstd::prelude::*;

use super::terminal::{sat_sub, Position, Size};
use crate::text::{concat, pop_char, push_char};
use vstd::utf8::encode_utf8;
use vstd::wrapping::usize_specs;

verus! {

/// The bar at the bottom of the screen where a search query is typed.
pub struct SearchBar {
    search_query: String,
    needs_redraw: bool,
}

impl Default for SearchBar {
    fn default() -> (bar: Self)
        ensures
            bar.query() == Seq::<char>::empty(),
            !bar.redraw(),
    {
        SearchBar { search_query: String::new(), needs_redraw: false }
    }
}

impl SearchBar {
    /// The query typed so far.
    pub closed spec fn query(&self) -> Seq<char> {
        self.search_query@
    }

    /// Whether the bar must be drawn again.
    pub closed spec fn redraw(&self) -> bool {
        self.needs_redraw
    }

    /// Replaces the query and marks the bar for drawing.
    pub fn update_search_query(&mut self, search_query: String)
        ensures
            final(self).query() == search_query@,
            final(self).redraw(),
    {
        self.search_query = search_query;
        self.mark_redraw(true);
    }

    /// Where the cursor stands on a screen of `size`: on the last row, after
    /// the prompt and the query, counted in bytes (the sum wraps in a
    /// `usize`, then is cut to 16 bits).
    pub open spec fn cursor_at(&self, size: Size) -> Position {
        Position {
            row: sat_sub(size.height as int, 1) as u16,
            col: usize_specs::wrapping_add(8, encode_utf8(self.query()).len() as usize) as u16,
        }
    }

    /// Where the cursor stands on a screen of `size`.
    pub fn get_position(&self, size: Size) -> (position: Position)
        ensures
            position == self.cursor_at(size),
    {
        let query_len = self.search_query.as_str().len();
        Position {
            row: size.height.saturating_sub(1),  // Last line of the screen
            col: 8usize.wrapping_add(query_len) as u16,
        }
    }

    /// Appends `ch` to the query and marks the bar for drawing.
    pub fn push_char(&mut self, ch: char)
        ensures
            final(self).query() == old(self).query().push(ch),
            final(self).redraw(),
    {
        push_char(&mut self.search_query, ch);
        self.mark_redraw(true);
    }

    /// Removes the last char of the query, if any, and marks the bar for
    /// drawing.
    pub fn pop_char(&mut self)
        ensures
            final(self).query() == (if old(self).query().len() == 0 {
                old(self).query()
            } else {
                old(self).query().drop_last()
            }),
            final(self).redraw(),
    {
        pop_char(&mut self.search_query);
        self.mark_redraw(true);
    }

    /// Empties the query.
    pub fn clear(&mut self)
        ensures
            final(self).query() == Seq::<char>::empty(),
            final(self).redraw() == old(self).redraw(),
    {
        self.search_query = String::new();
    }

    /// The query typed so far.
    pub fn get_query(&self) -> (query: String)
        ensures
            query@ == self.query(),
    {
        self.search_query.clone()
    }

    /// Takes a new size and marks the bar for drawing.
    pub fn resize(&mut self, size: Size)
        ensures
            final(self).redraw(),
            final(self).query() == old(self).query(),
    {
        self.set_size(size);
        self.mark_redraw(true);
    }

    /// Marks whether the bar must be drawn again.
    pub fn mark_redraw(&mut self, value: bool)
        ensures
            final(self).redraw() == value,
            final(self).query() == old(self).query(),
    {
        self.needs_redraw = value;
    }

    /// Whether the bar must be drawn again.
    pub fn needs_redraw(&self) -> (r: bool)
        ensures
            r == self.redraw(),
    {
        self.needs_redraw
    }

    /// The bar takes the size it is drawn in; nothing to remember.
    pub fn set_size(&mut self, _size: Size)
        ensures
            *final(self) == *old(self),
    {
    }

    /// The text of the bar: the prompt, then the query.
    pub fn text(&self) -> (text: String)
        ensures
            text@ == "Search: "@ + self.query(),
    {
        concat("Search: ", self.search_query.as_str())
    }
}

} // verus!
