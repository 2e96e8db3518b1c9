use vstd::prelude::*;

use super::terminal::{sat_sub, Size};
use super::{opt_text, DocumentStatus};
use crate::editor::view::sat_add;
use crate::text::{decimal, file_name, path_file_name, push_char, push_decimal};
use vstd::utf8::encode_utf8;

verus! {

/// The name shown for the document: the last component of its path, or
/// `[No Name]`.
pub open spec fn shown_name(path: Option<Seq<char>>) -> Seq<char> {
    match path {
        Some(p) => match path_file_name(p) {
            Some(name) => name,
            None => "[No Name]"@,
        },
        None => "[No Name]"@,
    }
}

/// The left part of the status bar: the name, the number of lines and
/// whether the document was modified.
pub open spec fn status_beginning(fields: (usize, usize, bool, Option<Seq<char>>)) -> Seq<char> {
    shown_name(fields.3) + " - "@ + decimal(fields.0 as nat) + " lines"@ + if fields.2 {
        " (modified)"@
    } else {
        Seq::empty()
    }
}

/// The right part of the status bar: the cursor's line, counted from 1, and
/// the number of lines.
pub open spec fn status_end(fields: (usize, usize, bool, Option<Seq<char>>)) -> Seq<char> {
    decimal(sat_add(fields.1 as int, 1) as nat) + "/"@ + decimal(fields.0 as nat)
}

/// `s`, with spaces before it to make it `width` chars long.
pub open spec fn right_aligned(s: Seq<char>, width: int) -> Seq<char> {
    if s.len() < width {
        Seq::new((width - s.len()) as nat, |i: int| ' ') + s
    } else {
        s
    }
}

/// The bar that shows the document's status.
pub struct StatusBar {
    current_status: DocumentStatus,
    size: Size,
    needs_redraw: bool,
}

impl Default for StatusBar {
    fn default() -> (bar: Self)
        ensures
            bar.status() == (0usize, 0usize, false, None::<Seq<char>>),
            bar.bar_size() == (Size { width: 0, height: 0 }),
            !bar.redraw(),
    {
        StatusBar {
            current_status: DocumentStatus::default(),
            size: Size::default(),
            needs_redraw: false,
        }
    }
}

impl StatusBar {
    /// The status shown.
    pub closed spec fn status(&self) -> (usize, usize, bool, Option<Seq<char>>) {
        self.current_status.fields()
    }

    /// The size of the bar.
    pub closed spec fn bar_size(&self) -> Size {
        self.size
    }

    /// Whether the bar was marked for drawing.
    pub closed spec fn redraw(&self) -> bool {
        self.needs_redraw
    }

    /// Shows `status`.
    pub fn update_status(&mut self, status: DocumentStatus)
        ensures
            final(self).status() == status.fields(),
            final(self).bar_size() == old(self).bar_size(),
            final(self).redraw() == old(self).redraw(),
    {
        if !same_status(&self.current_status, &status) {
            self.current_status = status;
        }
    }

    /// The left and the right part of the bar.
    fn format_status(&self) -> (parts: (String, String))
        ensures
            parts.0@ == status_beginning(self.status()),
            parts.1@ == status_end(self.status()),
    {
        let file_name = match &self.current_status.path {
            Some(p) => match file_name(p.as_str()) {
                Some(name) => name,
                None => "[No Name]".to_owned(),
            },
            None => "[No Name]".to_owned(),
        };
        let mut end = String::new();
        push_decimal(&mut end, self.current_status.current_line_idx.saturating_add(1));
        end.append("/");
        push_decimal(&mut end, self.current_status.total_lines);
        let mut beginning = file_name;
        beginning.append(" - ");
        push_decimal(&mut beginning, self.current_status.total_lines);
        beginning.append(" lines");
        if self.current_status.is_modified {
            beginning.append(" (modified)");
        }
        assert(beginning@ =~= status_beginning(self.status()));
        assert(end@ =~= status_end(self.status()));
        (beginning, end)
    }

    /// Takes a new size and marks the bar for drawing.
    pub fn resize(&mut self, size: Size)
        ensures
            final(self).redraw(),
            final(self).status() == old(self).status(),
            final(self).bar_size() == size,
    {
        self.set_size(size);
        self.mark_redraw(true);
    }

    /// Marks whether the bar must be drawn again.
    pub fn mark_redraw(&mut self, value: bool)
        ensures
            final(self).redraw() == value,
            final(self).status() == old(self).status(),
            final(self).bar_size() == old(self).bar_size(),
    {
        self.needs_redraw = value;
    }

    /// The status bar is drawn at every refresh.
    pub fn needs_redraw(&self) -> (r: bool)
        ensures
            r,
    {
        true
    }

    /// Takes the size of the bar.
    pub fn set_size(&mut self, size: Size)
        ensures
            final(self).bar_size() == size,
            final(self).status() == old(self).status(),
            final(self).redraw() == old(self).redraw(),
    {
        self.size = size;
    }

    /// The text of the bar on a terminal `terminal_width` columns wide: the
    /// left part, then the right part aligned to the bar's right edge; nothing
    /// when that is wider (in bytes) than the terminal.
    pub open spec fn line_text(&self, terminal_width: u16) -> Seq<char> {
        let beginning = status_beginning(self.status());
        let remainder = sat_sub(
            self.bar_size().width as int,
            encode_utf8(beginning).len() as usize as int,
        );
        let status = beginning + right_aligned(status_end(self.status()), remainder);
        if encode_utf8(status).len() as usize <= terminal_width as usize {
            status
        } else {
            Seq::empty()
        }
    }

    /// The text of the bar on a terminal `terminal_width` columns wide.
    pub fn status_line(&self, terminal_width: u16) -> (line: String)
        ensures
            line@ == self.line_text(terminal_width),
    {
        let (beginning, end) = self.format_status();
        let remainder_len = (self.size.width as usize).saturating_sub(beginning.as_str().len());
        let mut status = beginning;
        let end_len = end.as_str().unicode_len();
        if end_len < remainder_len {
            let mut k = end_len;
            while k < remainder_len
                invariant
                    end_len <= k <= remainder_len,
                    status@ == beginning@ + Seq::new((k - end_len) as nat, |i: int| ' '),
                decreases remainder_len - k,
            {
                push_char(&mut status, ' ');
                assert(status@ =~= beginning@ + Seq::new((k + 1 - end_len) as nat, |i: int| ' '));
                k += 1;
            }
        }
        status.append(end.as_str());
        assert(status@ =~= beginning@ + right_aligned(end@, remainder_len as int));
        if status.as_str().len() <= terminal_width as usize {
            status
        } else {
            String::new()
        }
    }
}

/// Whether two statuses show the same.
fn same_status(a: &DocumentStatus, b: &DocumentStatus) -> (same: bool)
    ensures
        same == (a.fields() == b.fields()),
{
    let same_path = match (&a.path, &b.path) {
        (Some(p), Some(q)) => *p == *q,
        (None, None) => true,
        _ => false,
    };
    a.total_lines == b.total_lines && a.current_line_idx == b.current_line_idx
        && a.is_modified == b.is_modified && same_path
}

} // verus!
