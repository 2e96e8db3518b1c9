use vstd::prelude::*;

pub mod buffer;
pub mod commands;
pub mod messagebar;
pub mod searchbar;
pub mod statusbar;
pub mod terminal;
pub mod view;

use self::commands::{key_command, Direction, Event, EditorCommand};
use self::messagebar::{MessageBar, HELP_MESSAGE};
use self::searchbar::SearchBar;
use self::statusbar::StatusBar;
use self::terminal::{sat_sub, Position, Size};
use self::view::{scrolled, View, ViewStatus};
use vstd::view::View as _;
use crate::rope::line_count;

verus! {

/// What the status bar shows: the number of lines, the cursor's line,
/// whether the document changed since it was saved, and its path.
#[derive(PartialEq, Eq, Debug)]
pub struct DocumentStatus {
    total_lines: usize,
    current_line_idx: usize,
    is_modified: bool,
    path: Option<String>,
}

/// The text of an optional string.
pub open spec fn opt_text(s: Option<String>) -> Option<Seq<char>> {
    match s {
        Some(t) => Some(t@),
        None => None,
    }
}

impl DocumentStatus {
    /// The status as plain values.
    pub closed spec fn fields(&self) -> (usize, usize, bool, Option<Seq<char>>) {
        (self.total_lines, self.current_line_idx, self.is_modified, opt_text(self.path))
    }
}

impl Default for DocumentStatus {
    fn default() -> (status: Self)
        ensures
            status.fields() == (0usize, 0usize, false, None::<Seq<char>>),
    {
        DocumentStatus { total_lines: 0, current_line_idx: 0, is_modified: false, path: None }
    }
}

impl From<ViewStatus> for DocumentStatus {
    fn from(view_status: ViewStatus) -> (status: Self)
        ensures
            status.fields() == (
                view_status.total_lines,
                view_status.current_line_idx,
                view_status.is_modified,
                None::<Seq<char>>,
            ),
    {
        Self {
            total_lines: view_status.total_lines,
            current_line_idx: view_status.current_line_idx,
            is_modified: view_status.is_modified,
            path: None,
        }
    }
}

impl vstd::std_specs::convert::FromSpecImpl<ViewStatus> for DocumentStatus {
    open spec fn obeys_from_spec() -> bool {
        true
    }

    closed spec fn from_spec(view_status: ViewStatus) -> DocumentStatus {
        DocumentStatus {
            total_lines: view_status.total_lines,
            current_line_idx: view_status.current_line_idx,
            is_modified: view_status.is_modified,
            path: None,
        }
    }
}


/// How many times Ctrl-Q is refused while there are unsaved changes.
const COUNT_TO_QUIT: i16 = 1i16;

/// Whether keys edit the document, the search query, or move between the
/// matches of a search.
#[derive(Clone, Copy, PartialEq, Eq, Structural)]
enum Mode {
    Search,
    SearchNavigate,
    Edit,
}

/// What the program around the editor has to do after an event.
#[derive(PartialEq, Eq, Debug)]
pub enum EditorAction {
    /// Nothing: go on with the next event.
    Continue,
    /// Write the document to this path, then report with
    /// `Editor::complete_save`.
    Save(String),
}

/// Which bar the last row of the screen shows.
#[derive(Clone, Copy, PartialEq, Eq, Debug, Structural)]
pub enum BottomBar {
    /// The message bar, while keys edit the document.
    Message,
    /// The search bar, while keys go to the query.
    Search,
}

/// Where the parts of the screen are drawn, and where the cursor goes.
pub struct ScreenLayout {
    /// Whether the view of the document is drawn, from the first row down.
    pub draw_view: bool,
    /// The bar drawn at `bottom_row`.
    pub bottom_bar: BottomBar,
    /// The row the bottom bar is drawn at.
    pub bottom_row: usize,
    /// The row of the status bar, when there is room for one.
    pub status_row: Option<usize>,
    /// Where the cursor is shown.
    pub cursor: Position,
}

/// The command that `event` asks for, when it is a key press or a resize.
pub open spec fn command_of(event: &Event) -> EditorCommand {
    match event {
        Event::Key(key) => key_command(*key),
        Event::Resize(width, height) => EditorCommand::Resize(Size { width: *width, height: *height }),
        Event::Other(_) => EditorCommand::Ignore,
    }
}

/// The message shown when Ctrl-Q is refused.
pub open spec fn unsaved_warning() -> Seq<char> {
    "WARNING: File has unsaved changes. Press again to Quit"@
}

/// The editor: the view of the document and the bars below it.
pub struct Editor {
    should_quit: bool,
    view: View,
    file_path: Option<String>,
    status_bar: StatusBar,
    message_bar: MessageBar,
    search_bar: SearchBar,
    quit_press_count: i16,
    mode: Mode,
}

impl Editor {
    /// Whether the editor is to quit.
    pub closed spec fn quitting(&self) -> bool {
        self.should_quit
    }

    /// The view of the document.
    pub closed spec fn view_spec(&self) -> View {
        self.view
    }

    /// The path of the document, if it has one.
    pub closed spec fn path(&self) -> Option<Seq<char>> {
        opt_text(self.file_path)
    }

    /// The status bar.
    pub closed spec fn status_bar_spec(&self) -> StatusBar {
        self.status_bar
    }

    /// The message bar.
    pub closed spec fn message_bar_spec(&self) -> MessageBar {
        self.message_bar
    }

    /// The search bar.
    pub closed spec fn search_bar_spec(&self) -> SearchBar {
        self.search_bar
    }

    /// How many times Ctrl-Q was refused.
    pub closed spec fn quit_presses(&self) -> i16 {
        self.quit_press_count
    }

    /// Whether keys go to the search query.
    pub closed spec fn searching(&self) -> bool {
        self.mode == Mode::Search
    }

    /// Whether the arrow keys move between the matches of a search.
    pub closed spec fn navigating(&self) -> bool {
        self.mode == Mode::SearchNavigate
    }

    /// The view is well formed and Ctrl-Q was refused at most once.
    pub open spec fn wf(&self) -> bool {
        &&& self.view_spec().wf()
        &&& 0 <= self.quit_presses() <= 1
    }

    /// The editor for the document at `path` whose text is `contents` (none
    /// when there is no file or it could not be read), on a terminal of
    /// `terminal_size`, at time `now`: the help is shown, and keys edit.
    pub fn new(path: Option<String>, contents: Option<&str>, terminal_size: Size, now: u64) -> (editor:
        Self)
        ensures
            editor.wf(),
            editor.view_spec().text() == (match contents {
                Some(c) => c@,
                None => Seq::<char>::empty(),
            }),
            !editor.view_spec().buf().is_dirty,
            editor.view_spec().margin() == 2,
            editor.view_spec().view_size() == (Size {
                width: terminal_size.width,
                height: sat_sub(terminal_size.height as int, 2) as u16,
            }),
            editor.view_spec().loc() == view::at(0, 0),
            editor.view_spec().scroll() == (Position { col: 0, row: 0 }),
            editor.view_spec().redraw(),
            editor.view_spec().matches() == Seq::<view::Location>::empty(),
            editor.view_spec().current_match() == None::<usize>,
            editor.view_spec().query() == Seq::<char>::empty(),
            editor.path() == opt_text(path),
            editor.status_bar_spec().status() == (
                line_count(editor.view_spec().text()) as usize,
                0usize,
                false,
                opt_text(path),
            ),
            editor.status_bar_spec().bar_size() == terminal_size,
            !editor.status_bar_spec().redraw(),
            editor.message_bar_spec().message() == HELP_MESSAGE@,
            editor.message_bar_spec().posted_at() == now,
            editor.message_bar_spec().redraw(),
            !editor.message_bar_spec().is_cleared(),
            editor.search_bar_spec().query() == Seq::<char>::empty(),
            editor.search_bar_spec().redraw(),
            !editor.quitting(),
            editor.quit_presses() == 0,
            !editor.searching(),
            !editor.navigating(),
    {
        // update the status on load
        let view = View::new(contents, 2, terminal_size);
        let view_status = view.get_status();
        let mut status: DocumentStatus = DocumentStatus::from(view_status);
        status.path = match &path {
            Some(p) => Some(p.clone()),
            None => None,
        };

        let mut status_bar = StatusBar::default();
        status_bar.set_size(terminal_size);
        status_bar.update_status(status);

        let mut message_bar = MessageBar::default();
        message_bar.update_message(HELP_MESSAGE.to_owned(), now);

        let mut search_bar = SearchBar::default();
        search_bar.update_search_query(String::new());

        Self {
            should_quit: false,
            view,
            file_path: path,
            status_bar,
            message_bar,
            search_bar,
            quit_press_count: 0,
            mode: Mode::Edit,
        }
    }

    /// The view of the document.
    pub fn view(&self) -> (view: &View)
        ensures
            *view == self.view_spec(),
    {
        &self.view
    }

    /// Whether the editor is to quit.
    pub fn should_quit(&self) -> (r: bool)
        ensures
            r == self.quitting(),
    {
        self.should_quit
    }

    /// Whether keys go to the search query.
    pub fn is_searching(&self) -> (r: bool)
        ensures
            r == self.searching(),
    {
        match self.mode {
            Mode::Search => true,
            _ => false,
        }
    }

    /// Whether the arrow keys move between the matches of a search.
    pub fn is_navigating(&self) -> (r: bool)
        ensures
            r == self.navigating(),
    {
        match self.mode {
            Mode::SearchNavigate => true,
            _ => false,
        }
    }

    /// Shows the view's status, with the document's path, in the status bar.
    pub fn update_status(&mut self)
        ensures
            final(self).status_bar_spec().status() == (
                line_count(old(self).view_spec().text()) as usize,
                old(self).view_spec().loc().line_index,
                old(self).view_spec().buf().is_dirty,
                old(self).path(),
            ),
            final(self).status_bar_spec().bar_size() == old(self).status_bar_spec().bar_size(),
            final(self).status_bar_spec().redraw() == old(self).status_bar_spec().redraw(),
            final(self).view_spec() == old(self).view_spec(),
            final(self).path() == old(self).path(),
            final(self).message_bar_spec() == old(self).message_bar_spec(),
            final(self).search_bar_spec() == old(self).search_bar_spec(),
            final(self).quitting() == old(self).quitting(),
            final(self).quit_presses() == old(self).quit_presses(),
            final(self).searching() == old(self).searching(),
            final(self).navigating() == old(self).navigating(),
    {
        let view_status = self.view.get_status();
        let mut status: DocumentStatus = DocumentStatus::from(view_status);
        status.path = match &self.file_path {
            Some(p) => Some(p.clone()),
            None => None,
        };
        self.status_bar.update_status(status);
    }

    /// Fits the view, less the two bars, and the bars to a terminal of
    /// `size`.
    fn resize(&mut self, size: Size)
        requires
            old(self).wf(),
        ensures
            final(self).wf(),
            final(self).view_spec().resized_from(
                &old(self).view_spec(),
                Size { width: size.width, height: sat_sub(size.height as int, 2) as u16 },
            ),
            final(self).message_bar_spec().redraw(),
            final(self).message_bar_spec().message() == old(self).message_bar_spec().message(),
            final(self).message_bar_spec().posted_at() == old(self).message_bar_spec().posted_at(),
            final(self).message_bar_spec().is_cleared() == old(self).message_bar_spec().is_cleared(),
            final(self).status_bar_spec().redraw(),
            final(self).status_bar_spec().status() == old(self).status_bar_spec().status(),
            final(self).status_bar_spec().bar_size() == (Size { height: 1, width: size.width }),
            final(self).path() == old(self).path(),
            final(self).search_bar_spec() == old(self).search_bar_spec(),
            final(self).quitting() == old(self).quitting(),
            final(self).quit_presses() == old(self).quit_presses(),
            final(self).searching() == old(self).searching(),
            final(self).navigating() == old(self).navigating(),
    {
        self.view.resize(Size { width: size.width, height: size.height.saturating_sub(2) });
        self.message_bar.resize(Size { width: size.width, height: 1 });
        self.status_bar.resize(Size { height: 1, width: size.width });
    }

    /// How a screen of `size` is laid out: nothing on a screen with no rows
    /// or no columns; else the view when there are more than two rows, the
    /// search bar while searching (the message bar otherwise) at row
    /// `size.height`, the status bar two rows above it when there are at
    /// least two rows, and the cursor where the search bar or the view puts
    /// it.
    pub fn screen_layout(&self, size: Size) -> (layout: Option<ScreenLayout>)
        ensures
            layout is None <==> (size.height == 0 || size.width == 0),
            layout matches Some(l) ==> {
                &&& l.draw_view == (size.height > 2)
                &&& l.bottom_bar == if self.searching() {
                    BottomBar::Search
                } else {
                    BottomBar::Message
                }
                &&& l.bottom_row == size.height as usize
                &&& l.status_row == if size.height > 1 {
                    Some(sat_sub(size.height as int, 2) as usize)
                } else {
                    None::<usize>
                }
                &&& l.cursor == if self.searching() {
                    self.search_bar_spec().cursor_at(size)
                } else {
                    self.view_spec().screen_position()
                }
            },
    {
        if size.height == 0 || size.width == 0 {
            return None;
        }
        let (bottom_bar, cursor) = match self.mode {
            Mode::Search => (BottomBar::Search, self.search_bar.get_position(size)),
            _ => (BottomBar::Message, self.view.get_position()),
        };
        let status_row = if size.height > 1 {
            Some(size.height.saturating_sub(2) as usize)
        } else {
            None
        };
        Some(
            ScreenLayout {
                draw_view: size.height > 2,
                bottom_bar,
                bottom_row: size.height as usize,
                status_row,
                cursor,
            },
        )
    }

    /// The status bar's text on a terminal `terminal_width` columns wide.
    pub fn status_line(&self, terminal_width: u16) -> (line: String)
        ensures
            line@ == self.status_bar_spec().line_text(terminal_width),
    {
        self.status_bar.status_line(terminal_width)
    }

    /// Whether the bar on the last row must be drawn at `now`: the search
    /// bar while searching, the message bar otherwise.
    pub fn bottom_bar_needs_redraw(&self, now: u64) -> (r: bool)
        ensures
            r == if self.searching() {
                self.search_bar_spec().redraw()
            } else {
                self.message_bar_spec().expired_at(now) || self.message_bar_spec().redraw()
            },
    {
        match self.mode {
            Mode::Search => self.search_bar.needs_redraw(),
            _ => self.message_bar.needs_redraw(now),
        }
    }

    /// The text of the bar on the last row at `now`: the prompt and the
    /// query while searching; else the message, or the help once it has
    /// expired.
    pub fn bottom_bar_text(&mut self, now: u64) -> (text: String)
        ensures
            text@ == if old(self).searching() {
                "Search: "@ + old(self).search_bar_spec().query()
            } else if old(self).message_bar_spec().expired_at(now) {
                HELP_MESSAGE@
            } else {
                old(self).message_bar_spec().message()
            },
            final(self).message_bar_spec().message() == old(self).message_bar_spec().message(),
            final(self).message_bar_spec().posted_at() == old(self).message_bar_spec().posted_at(),
            final(self).message_bar_spec().redraw() == old(self).message_bar_spec().redraw(),
            final(self).message_bar_spec().is_cleared() == (old(
                self,
            ).message_bar_spec().is_cleared() && (old(self).searching() || !old(
                self,
            ).message_bar_spec().expired_at(now))),
            final(self).view_spec() == old(self).view_spec(),
            final(self).path() == old(self).path(),
            final(self).status_bar_spec() == old(self).status_bar_spec(),
            final(self).search_bar_spec() == old(self).search_bar_spec(),
            final(self).quitting() == old(self).quitting(),
            final(self).quit_presses() == old(self).quit_presses(),
            final(self).searching() == old(self).searching(),
            final(self).navigating() == old(self).navigating(),
    {
        match self.mode {
            Mode::Search => self.search_bar.text(),
            _ => self.message_bar.message_to_draw(now),
        }
    }

    /// Records that the parts of the screen that `layout` shows were drawn:
    /// they need no drawing until something changes.
    pub fn finish_refresh(&mut self, layout: &ScreenLayout)
        ensures
            layout.draw_view ==> !final(self).view_spec().redraw(),
            !layout.draw_view ==> final(self).view_spec() == old(self).view_spec(),
            layout.draw_view ==> final(self).view_spec().same_but_redraw(&old(self).view_spec()),
            old(self).searching() ==> !final(self).search_bar_spec().redraw(),
            old(self).searching() ==> final(self).search_bar_spec().query() == old(
                self,
            ).search_bar_spec().query(),
            !old(self).searching() ==> final(self).search_bar_spec() == old(self).search_bar_spec(),
            !old(self).searching() ==> !final(self).message_bar_spec().redraw(),
            final(self).message_bar_spec().message() == old(self).message_bar_spec().message(),
            final(self).message_bar_spec().posted_at() == old(self).message_bar_spec().posted_at(),
            final(self).message_bar_spec().is_cleared() == old(self).message_bar_spec().is_cleared(),
            old(self).searching() ==> final(self).message_bar_spec().redraw() == old(
                self,
            ).message_bar_spec().redraw(),
            layout.status_row is Some ==> !final(self).status_bar_spec().redraw(),
            layout.status_row is None ==> final(self).status_bar_spec().redraw() == old(
                self,
            ).status_bar_spec().redraw(),
            final(self).status_bar_spec().status() == old(self).status_bar_spec().status(),
            final(self).status_bar_spec().bar_size() == old(self).status_bar_spec().bar_size(),
            final(self).wf() == old(self).wf(),
            final(self).path() == old(self).path(),
            final(self).quitting() == old(self).quitting(),
            final(self).quit_presses() == old(self).quit_presses(),
            final(self).searching() == old(self).searching(),
            final(self).navigating() == old(self).navigating(),
    {
        if layout.draw_view {
            self.view.mark_redraw(false);
        }
        match self.mode {
            Mode::Search => self.search_bar.mark_redraw(false),
            _ => self.message_bar.mark_redraw(false),
        }
        if layout.status_row.is_some() {
            self.status_bar.mark_redraw(false);
        }
    }

    /// Reports how writing the document out went, at time `now`: on
    /// success the document counts as saved.
    pub fn complete_save(&mut self, saved: bool, now: u64)
        requires
            old(self).wf(),
        ensures
            final(self).wf(),
            final(self).view_spec().text() == old(self).view_spec().text(),
            final(self).view_spec().buf().is_dirty == (old(self).view_spec().buf().is_dirty && !saved),
            final(self).view_spec().margin() == old(self).view_spec().margin(),
            final(self).view_spec().view_size() == old(self).view_spec().view_size(),
            final(self).view_spec().loc() == old(self).view_spec().loc(),
            final(self).view_spec().scroll() == old(self).view_spec().scroll(),
            final(self).view_spec().redraw() == old(self).view_spec().redraw(),
            final(self).view_spec().same_search(&old(self).view_spec()),
            final(self).message_bar_spec().message() == (if saved {
                "File saved successfully."@
            } else {
                "Err: Could not save file!"@
            }),
            final(self).message_bar_spec().posted_at() == now,
            final(self).message_bar_spec().redraw(),
            !final(self).message_bar_spec().is_cleared(),
            final(self).path() == old(self).path(),
            final(self).status_bar_spec() == old(self).status_bar_spec(),
            final(self).search_bar_spec() == old(self).search_bar_spec(),
            final(self).quitting() == old(self).quitting(),
            final(self).quit_presses() == old(self).quit_presses(),
            final(self).searching() == old(self).searching(),
            final(self).navigating() == old(self).navigating(),
    {
        if saved {
            self.view.mark_saved();
            self.message_bar.update_message("File saved successfully.".to_owned(), now);
        } else {
            self.message_bar.update_message("Err: Could not save file!".to_owned(), now);
        }
    }
}

impl Editor {
    /// Whether Ctrl-Q is refused: the document has unsaved changes and Ctrl-Q
    /// was not refused before.
    pub open spec fn refuses_quit(&self, command: EditorCommand) -> bool {
        &&& command == EditorCommand::Quit
        &&& self.view_spec().buf().is_dirty
        &&& self.quit_presses() < 1
    }

    /// Whether keys go to the search query once `command` had its effect on
    /// the editor as a whole (Ctrl-F starts a search; a refused Ctrl-Q ends
    /// it).
    pub open spec fn searching_after(&self, command: EditorCommand) -> bool {
        if self.refuses_quit(command) {
            false
        } else if command == EditorCommand::Search {
            true
        } else {
            self.searching()
        }
    }

    /// Whether the arrow keys move between matches once `command` had its
    /// effect on the editor as a whole (Ctrl-F and a refused Ctrl-Q end it).
    pub open spec fn navigating_after(&self, command: EditorCommand) -> bool {
        &&& !self.refuses_quit(command)
        &&& command != EditorCommand::Search
        &&& self.navigating()
    }

    /// What handling `event` asks: a key press or a resize (anything else
    /// is refused by an assertion), and room for what is typed into the
    /// document.
    pub open spec fn can_evaluate(&self, event: &Event) -> bool {
        let command = command_of(event);
        &&& (event is Key || event is Resize)
        &&& !self.searching_after(command) && !self.navigating_after(command)
            ==> self.view_spec().can_handle(command)
    }

    /// `self` is `old` after `event` at time `now`, with `action` left for
    /// the program to do.
    pub open spec fn evaluated_from(
        &self,
        old: &Editor,
        event: &Event,
        now: u64,
        action: EditorAction,
    ) -> bool {
        let command = command_of(event);
        let refused = old.refuses_quit(command);
        let searching = old.searching_after(command);
        let navigating = old.navigating_after(command);
        &&& self.wf()
        &&& self.quitting() == (old.quitting() || (command == EditorCommand::Quit && !refused))
        &&& self.quit_presses() == if refused {
            (old.quit_presses() + 1) as i16
        } else {
            old.quit_presses()
        }
        &&& self.searching() == (searching && command != EditorCommand::Esc && command
            != EditorCommand::Enter)
        &&& self.navigating() == ((navigating && command != EditorCommand::Esc) || (searching
            && command == EditorCommand::Enter))
        &&& self.path() == old.path()
        &&& match action {
            EditorAction::Save(p) => command == EditorCommand::Save && old.path() == Some(p@),
            EditorAction::Continue => !(command == EditorCommand::Save && old.path() is Some),
        }
        &&& if refused {
            &&& self.message_bar_spec().message() == unsaved_warning()
            &&& self.message_bar_spec().posted_at() == now
            &&& self.message_bar_spec().redraw()
            &&& !self.message_bar_spec().is_cleared()
            &&& self.search_bar_spec().query() == Seq::<char>::empty()
            &&& self.search_bar_spec().redraw() == old.search_bar_spec().redraw()
        } else if command == EditorCommand::Save && old.path() is None {
            &&& self.message_bar_spec().message() == "Err: No such file name"@
            &&& self.message_bar_spec().posted_at() == now
            &&& self.message_bar_spec().redraw()
            &&& !self.message_bar_spec().is_cleared()
        } else if command is Resize {
            &&& self.message_bar_spec().message() == old.message_bar_spec().message()
            &&& self.message_bar_spec().posted_at() == old.message_bar_spec().posted_at()
            &&& self.message_bar_spec().redraw()
            &&& self.message_bar_spec().is_cleared() == old.message_bar_spec().is_cleared()
        } else {
            self.message_bar_spec() == old.message_bar_spec()
        }
        &&& if !refused && searching {
            match command {
                EditorCommand::Insert(c) => {
                    &&& self.search_bar_spec().query() == old.search_bar_spec().query().push(c)
                    &&& self.search_bar_spec().redraw()
                },
                EditorCommand::Backspace => {
                    &&& self.search_bar_spec().query() == if old.search_bar_spec().query().len()
                        == 0 {
                        old.search_bar_spec().query()
                    } else {
                        old.search_bar_spec().query().drop_last()
                    }
                    &&& self.search_bar_spec().redraw()
                },
                _ => self.search_bar_spec() == old.search_bar_spec(),
            }
        } else if !refused {
            self.search_bar_spec() == old.search_bar_spec()
        } else {
            true
        }
        &&& match command {
            EditorCommand::Resize(size) => {
                &&& self.status_bar_spec().status() == old.status_bar_spec().status()
                &&& self.status_bar_spec().bar_size() == (Size { height: 1, width: size.width })
                &&& self.status_bar_spec().redraw()
                &&& {
                    let v = old.view_spec();
                    let first = Size {
                        width: size.width,
                        height: sat_sub(
                            sat_sub(size.height as int, 2) as u16 as int,
                            v.margin() as u16 as int,
                        ) as u16,
                    };
                    let first_scroll = scrolled(v.text(), v.loc(), v.scroll(), first).0;
                    let second = Size {
                        width: size.width,
                        height: sat_sub(size.height as int, v.margin() as u16 as int) as u16,
                    };
                    &&& self.view_spec().view_size() == if searching || navigating {
                        first
                    } else {
                        second
                    }
                    &&& self.view_spec().scroll() == if searching || navigating {
                        first_scroll
                    } else {
                        scrolled(v.text(), v.loc(), first_scroll, second).0
                    }
                    &&& self.view_spec().redraw()
                    &&& self.view_spec().buf() == v.buf()
                    &&& self.view_spec().margin() == v.margin()
                    &&& self.view_spec().loc() == v.loc()
                    &&& self.view_spec().same_search(&v)
                }
            },
            _ => {
                &&& self.status_bar_spec() == old.status_bar_spec()
                &&& if searching {
                    if command == EditorCommand::Enter {
                        self.view_spec().searched_from(
                            &old.view_spec(),
                            old.search_bar_spec().query(),
                        )
                    } else {
                        self.view_spec() == old.view_spec()
                    }
                } else if navigating {
                    match command {
                        EditorCommand::Move(Direction::Up) => self.view_spec().stepped_from(
                            &old.view_spec(),
                            false,
                        ),
                        EditorCommand::Move(Direction::Down) => self.view_spec().stepped_from(
                            &old.view_spec(),
                            true,
                        ),
                        EditorCommand::Esc => self.view_spec().cleared_from(&old.view_spec()),
                        _ => self.view_spec() == old.view_spec(),
                    }
                } else {
                    self.view_spec().handled_from(&old.view_spec(), command)
                }
            },
        }
    }

    /// Handles `event` at time `now`:
    /// Ctrl-Q quits, unless there are unsaved changes and it was not refused
    /// before; Ctrl-S asks for the document to be saved; Ctrl-F starts a
    /// search; a resize fits the screen. Then the command goes to the view;
    /// or, while searching, to the query, where Enter searches the document
    /// and starts moving between the matches (Esc ends the search); or,
    /// while moving between matches, Up and Down go to the previous and the
    /// next match (Esc forgets the search and goes back to editing).
    pub fn evaluate_event(&mut self, event: &Event, now: u64) -> (action:
        EditorAction)
        requires
            old(self).wf(),
            old(self).can_evaluate(event),
        ensures
            final(self).evaluated_from(old(self), event, now, action),
    {
        let mut action = EditorAction::Continue;
        let command = match EditorCommand::try_from(event) {
            Ok(command) => command,
            Err(_) => {
                return action;
            },
        };
        assert(command == command_of(event));
        // Global commands
        match command {
            EditorCommand::Quit => {
                if self.view.get_status().is_modified && self.quit_press_count < COUNT_TO_QUIT {
                    self.quit_press_count += 1;
                    self.message_bar.update_message(
                        "WARNING: File has unsaved changes. Press again to Quit".to_owned(),
                        now,
                    );
                    self.search_bar.clear();
                    self.mode = Mode::Edit;
                } else {
                    self.should_quit = true;
                }
            },
            EditorCommand::Save => match &self.file_path {
                Some(file_path) => {
                    action = EditorAction::Save(file_path.clone());
                },
                None => {
                    self.message_bar.update_message("Err: No such file name".to_owned(), now);
                },
            },
            EditorCommand::Search => {
                self.mode = Mode::Search;
            },
            EditorCommand::Resize(size) => {
                self.resize(size);
            },
            _ => {},
        }
        match self.mode {
            Mode::Edit => self.view.handle_command(command),
            Mode::Search => match command {
                EditorCommand::Insert(c) => {
                    self.search_bar.push_char(c);
                },
                EditorCommand::Backspace => {
                    self.search_bar.pop_char();
                },
                EditorCommand::Enter => {
                    let query = self.search_bar.get_query();
                    self.view.search_document(query.as_str());
                    self.mode = Mode::SearchNavigate;
                },
                EditorCommand::Esc => {
                    self.mode = Mode::Edit;
                },
                _ => {},
            },
            Mode::SearchNavigate => match command {
                EditorCommand::Move(Direction::Up) => {
                    self.view.find_previous();
                },
                EditorCommand::Move(Direction::Down) => {
                    self.view.find_next();
                },
                EditorCommand::Esc => {
                    self.view.clear_search();
                    self.mode = Mode::Edit;
                },
                _ => {},
            },
        }
        action
    }
}

/// Ctrl-Q pressed twice in a row always quits: a first press is refused at
/// most once, when there are unsaved changes, and the second one then goes
/// through.
pub proof fn lemma_second_quit_press_quits(
    e0: Editor,
    e1: Editor,
    e2: Editor,
    first: Event,
    second: Event,
    times: (u64, u64),
    actions: (EditorAction, EditorAction),
)
    requires
        e0.wf(),
        command_of(&first) == EditorCommand::Quit,
        command_of(&second) == EditorCommand::Quit,
        e1.evaluated_from(&e0, &first, times.0, actions.0),
        e2.evaluated_from(&e1, &second, times.1, actions.1),
    ensures
        e2.quitting(),
{
}

/// Ctrl-Q on a document without unsaved changes quits at once.
pub proof fn lemma_clean_document_quits(
    e0: Editor,
    e1: Editor,
    event: Event,
    now: u64,
    action: EditorAction,
)
    requires
        e0.wf(),
        !e0.view_spec().buf().is_dirty,
        command_of(&event) == EditorCommand::Quit,
        e1.evaluated_from(&e0, &event, now, action),
    ensures
        e1.quitting(),
{
}

} // verus!
