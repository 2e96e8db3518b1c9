use rustle::editor::messagebar::{MessageBar, DEFAULT_DURATION_NS, HELP_MESSAGE};
use rustle::editor::searchbar::SearchBar;
use rustle::editor::statusbar::StatusBar;
use rustle::editor::terminal::{Position, Size};
use rustle::editor::view::ViewStatus;
use rustle::editor::DocumentStatus;

fn status(total_lines: usize, current_line_idx: usize, is_modified: bool) -> DocumentStatus {
    DocumentStatus::from(ViewStatus { total_lines, current_line_idx, is_modified })
}

#[test]
fn message_shows_until_it_expires() {
    let mut bar = MessageBar::default();
    bar.update_message(String::from("Saved"), 1_000);
    assert!(bar.needs_redraw(1_000));
    bar.mark_redraw(false);
    assert!(!bar.needs_redraw(1_000 + DEFAULT_DURATION_NS));
    assert_eq!(bar.message_to_draw(1_000 + DEFAULT_DURATION_NS), "Saved");
    assert!(bar.needs_redraw(1_001 + DEFAULT_DURATION_NS));
    assert_eq!(bar.message_to_draw(1_001 + DEFAULT_DURATION_NS), HELP_MESSAGE);
}

#[test]
fn message_before_its_time_is_not_expired() {
    let mut bar = MessageBar::default();
    bar.update_message(String::from("later"), 10);
    assert_eq!(bar.message_to_draw(5), "later");
}

#[test]
fn resizing_the_message_bar_marks_it() {
    let mut bar = MessageBar::default();
    bar.update_message(String::from("m"), 0);
    bar.mark_redraw(false);
    bar.resize(Size { width: 10, height: 1 });
    assert!(bar.needs_redraw(0));
    bar.set_size(Size { width: 3, height: 1 });
    assert_eq!(bar.message_to_draw(0), "m");
}

#[test]
fn search_bar_edits_its_query() {
    let mut bar = SearchBar::default();
    assert!(!bar.needs_redraw());
    bar.push_char('a');
    bar.push_char('\u{e9}');
    assert_eq!(bar.get_query(), "a\u{e9}");
    assert!(bar.needs_redraw());
    assert_eq!(bar.text(), "Search: a\u{e9}");
    bar.pop_char();
    assert_eq!(bar.get_query(), "a");
    bar.pop_char();
    bar.pop_char();
    assert_eq!(bar.get_query(), "");
    bar.update_search_query(String::from("xyz"));
    assert_eq!(bar.get_query(), "xyz");
    bar.mark_redraw(false);
    bar.clear();
    assert_eq!(bar.get_query(), "");
    assert!(!bar.needs_redraw());
    bar.resize(Size { width: 1, height: 1 });
    assert!(bar.needs_redraw());
}

#[test]
fn search_bar_cursor_follows_the_query_in_bytes() {
    let mut bar = SearchBar::default();
    bar.update_search_query(String::from("a\u{e9}"));
    bar.set_size(Size { width: 40, height: 10 });
    assert_eq!(bar.get_position(Size { width: 40, height: 10 }), Position { col: 11, row: 9 });
    assert_eq!(bar.get_position(Size { width: 40, height: 0 }), Position { col: 11, row: 0 });
}

#[test]
fn status_line_aligns_the_position_to_the_right() {
    let mut bar = StatusBar::default();
    bar.set_size(Size { width: 30, height: 1 });
    bar.update_status(status(12, 2, true));
    assert_eq!(bar.status_line(40), "[No Name] - 12 lines (modified)3/12");
    assert_eq!(bar.status_line(30), "");
    let mut wide = StatusBar::default();
    wide.resize(Size { width: 40, height: 1 });
    wide.update_status(status(12, 2, false));
    let line = wide.status_line(40);
    assert_eq!(line, format!("{}{}{}", "[No Name] - 12 lines", " ".repeat(16), "3/12"));
    assert_eq!(line.len(), 40);
}

#[test]
fn status_line_too_wide_for_the_terminal_is_empty() {
    let mut bar = StatusBar::default();
    bar.set_size(Size { width: 40, height: 1 });
    bar.update_status(status(1, 0, false));
    assert_eq!(bar.status_line(10), "");
}

#[test]
fn status_bar_is_drawn_every_time() {
    let mut bar = StatusBar::default();
    bar.mark_redraw(false);
    assert!(bar.needs_redraw());
}

#[test]
fn document_status_from_view_status() {
    let s = status(3, 1, true);
    assert_eq!(s, status(3, 1, true));
    assert_ne!(s, status(3, 1, false));
    assert_eq!(DocumentStatus::default(), status(0, 0, false));
}
