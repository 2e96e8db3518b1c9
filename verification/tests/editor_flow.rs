use rustle::editor::commands::{Event, KeyCode, KeyEvent, CONTROL};
use rustle::editor::messagebar::{DEFAULT_DURATION_NS, HELP_MESSAGE};
use rustle::editor::terminal::{Position, Size};
use rustle::editor::view::Location;
use rustle::editor::{BottomBar, Editor, EditorAction};

const SCREEN: Size = Size { width: 40, height: 10 };

fn editor(path: Option<&str>, contents: &str) -> Editor {
    Editor::new(path.map(String::from), Some(contents), SCREEN, 0)
}

fn press(e: &mut Editor, code: KeyCode, modifiers: u8) -> EditorAction {
    e.evaluate_event(&Event::Key(KeyEvent { code, modifiers }), 1)
}

fn type_char(e: &mut Editor, c: char) {
    assert_eq!(press(e, KeyCode::Char(c), 0), EditorAction::Continue);
}

fn text(e: &Editor) -> String {
    e.view().buffer.document.to_string()
}

#[test]
fn new_editor_shows_the_help_and_the_status() {
    let mut e = editor(Some("dir/notes.txt"), "a\nb");
    assert!(!e.should_quit());
    assert_eq!(e.bottom_bar_text(0), HELP_MESSAGE);
    let expected = format!("{}{}{}", "notes.txt - 2 lines", " ".repeat(18), "1/2");
    assert_eq!(e.status_line(40), expected);
    assert_eq!(e.view().size(), Size { width: 40, height: 8 });
}

#[test]
fn typing_edits_the_document_and_the_status_shows_it() {
    let mut e = editor(None, "b");
    type_char(&mut e, 'a');
    assert_eq!(text(&e), "ab");
    e.update_status();
    let expected = format!("{}{}{}", "[No Name] - 1 lines (modified)", " ".repeat(7), "1/1");
    assert_eq!(e.status_line(40), expected);
}

#[test]
fn quit_with_unsaved_changes_needs_a_second_press() {
    let mut e = editor(None, "");
    type_char(&mut e, 'x');
    press(&mut e, KeyCode::Char('q'), CONTROL);
    assert!(!e.should_quit());
    assert_eq!(
        e.bottom_bar_text(1),
        "WARNING: File has unsaved changes. Press again to Quit"
    );
    press(&mut e, KeyCode::Char('q'), CONTROL);
    assert!(e.should_quit());
}

#[test]
fn quit_on_a_clean_document_is_immediate() {
    let mut e = editor(None, "abc");
    press(&mut e, KeyCode::Char('q'), CONTROL);
    assert!(e.should_quit());
}

#[test]
fn save_asks_the_program_to_write_the_file() {
    let mut e = editor(Some("notes.txt"), "a");
    type_char(&mut e, 'z');
    let action = press(&mut e, KeyCode::Char('s'), CONTROL);
    assert_eq!(action, EditorAction::Save(String::from("notes.txt")));
    e.complete_save(true, 2);
    assert_eq!(e.bottom_bar_text(2), "File saved successfully.");
    assert!(!e.view().get_status().is_modified);
    press(&mut e, KeyCode::Char('q'), CONTROL);
    assert!(e.should_quit());
}

#[test]
fn failed_save_is_reported() {
    let mut e = editor(Some("notes.txt"), "a");
    type_char(&mut e, 'z');
    e.complete_save(false, 2);
    assert_eq!(e.bottom_bar_text(2), "Err: Could not save file!");
    assert!(e.view().get_status().is_modified);
}

#[test]
fn save_without_a_path_is_refused() {
    let mut e = editor(None, "a");
    let action = press(&mut e, KeyCode::Char('s'), CONTROL);
    assert_eq!(action, EditorAction::Continue);
    assert_eq!(e.bottom_bar_text(1), "Err: No such file name");
}

#[test]
fn message_expires_back_to_the_help() {
    let mut e = editor(None, "a");
    press(&mut e, KeyCode::Char('s'), CONTROL);
    assert_eq!(e.bottom_bar_text(2 + DEFAULT_DURATION_NS), HELP_MESSAGE);
}

#[test]
fn search_mode_edits_the_query_not_the_document() {
    let mut e = editor(None, "abc");
    assert!(!e.is_searching());
    press(&mut e, KeyCode::Char('f'), CONTROL);
    assert!(e.is_searching());
    type_char(&mut e, 'x');
    type_char(&mut e, 'y');
    assert_eq!(e.bottom_bar_text(1), "Search: xy");
    press(&mut e, KeyCode::Backspace, 0);
    assert_eq!(e.bottom_bar_text(1), "Search: x");
    assert_eq!(text(&e), "abc");
    press(&mut e, KeyCode::Esc, 0);
    assert!(!e.is_searching());
    type_char(&mut e, 'q');
    assert_eq!(text(&e), "qabc");
}

#[test]
fn refused_quit_leaves_search_mode() {
    let mut e = editor(None, "abc");
    type_char(&mut e, '1');
    press(&mut e, KeyCode::Char('f'), CONTROL);
    type_char(&mut e, 'x');
    press(&mut e, KeyCode::Char('q'), CONTROL);
    assert!(!e.should_quit());
    type_char(&mut e, '2');
    assert_eq!(text(&e), "12abc");
}

#[test]
fn resize_fits_the_view_between_the_bars() {
    let mut e = editor(None, "abc");
    e.evaluate_event(&Event::Resize(50, 20), 1);
    assert_eq!(e.view().size(), Size { width: 50, height: 18 });
    press(&mut e, KeyCode::Char('f'), CONTROL);
    e.evaluate_event(&Event::Resize(30, 12), 1);
    assert_eq!(e.view().size(), Size { width: 30, height: 8 });
}

#[test]
fn screen_layout_by_size_and_mode() {
    let mut e = editor(None, "abc");
    assert!(e.screen_layout(Size { width: 0, height: 5 }).is_none());
    assert!(e.screen_layout(Size { width: 5, height: 0 }).is_none());
    press(&mut e, KeyCode::End, 0);
    let layout = e.screen_layout(SCREEN).unwrap();
    assert!(layout.draw_view);
    assert_eq!(layout.bottom_bar, BottomBar::Message);
    assert_eq!(layout.bottom_row, 10);
    assert_eq!(layout.status_row, Some(8));
    assert_eq!(layout.cursor, Position { col: 3, row: 0 });
    let small = e.screen_layout(Size { width: 40, height: 2 }).unwrap();
    assert!(!small.draw_view);
    assert_eq!(small.status_row, Some(0));
    assert_eq!(e.screen_layout(Size { width: 40, height: 1 }).unwrap().status_row, None);
    press(&mut e, KeyCode::Char('f'), CONTROL);
    type_char(&mut e, 'a');
    let searching = e.screen_layout(SCREEN).unwrap();
    assert_eq!(searching.bottom_bar, BottomBar::Search);
    assert_eq!(searching.cursor, Position { col: 9, row: 9 });
}

#[test]
fn drawn_parts_need_no_redraw() {
    let mut e = editor(None, "abc");
    assert!(e.view().needs_redraw());
    assert!(e.bottom_bar_needs_redraw(1));
    let layout = e.screen_layout(SCREEN).unwrap();
    e.finish_refresh(&layout);
    assert!(!e.view().needs_redraw());
    assert!(!e.bottom_bar_needs_redraw(1));
    assert!(e.bottom_bar_needs_redraw(1 + DEFAULT_DURATION_NS));
}

#[test]
fn cursor_moves_with_arrow_keys() {
    let mut e = editor(None, "ab\ncd");
    press(&mut e, KeyCode::Down, 0);
    press(&mut e, KeyCode::Right, 0);
    assert_eq!(e.view().location(), Location { grapheme_index: 1, line_index: 1 });
    e.update_status();
    let expected = format!("{}{}{}", "[No Name] - 2 lines", " ".repeat(18), "2/2");
    assert_eq!(e.status_line(40), expected);
}

#[test]
fn enter_in_the_search_bar_searches_and_arrows_move_between_matches() {
    let mut e = editor(None, "ab ab\nab");
    press(&mut e, KeyCode::Char('f'), CONTROL);
    type_char(&mut e, 'a');
    type_char(&mut e, 'b');
    press(&mut e, KeyCode::Enter, 0);
    assert!(!e.is_searching());
    assert!(e.is_navigating());
    assert_eq!(e.view().location(), Location { grapheme_index: 0, line_index: 0 });
    press(&mut e, KeyCode::Down, 0);
    assert_eq!(e.view().location(), Location { grapheme_index: 3, line_index: 0 });
    press(&mut e, KeyCode::Down, 0);
    assert_eq!(e.view().location(), Location { grapheme_index: 0, line_index: 1 });
    press(&mut e, KeyCode::Down, 0);
    assert_eq!(e.view().location(), Location { grapheme_index: 0, line_index: 0 });
    press(&mut e, KeyCode::Up, 0);
    assert_eq!(e.view().location(), Location { grapheme_index: 0, line_index: 1 });
    let layout = e.screen_layout(SCREEN).unwrap();
    assert_eq!(layout.bottom_bar, BottomBar::Message);
    assert_eq!(layout.cursor, Position { col: 0, row: 1 });
    type_char(&mut e, 'z');
    assert_eq!(text(&e), "ab ab\nab");
    press(&mut e, KeyCode::Esc, 0);
    assert!(!e.is_navigating());
    let row = e.view().render_line(0).unwrap();
    assert_eq!(row.len(), 1);
    assert!(row[0].highlight.is_none());
    type_char(&mut e, 'z');
    assert_eq!(text(&e), "ab ab\nzab");
}

#[test]
fn search_from_navigation_goes_back_to_the_query() {
    let mut e = editor(None, "abc");
    press(&mut e, KeyCode::Char('f'), CONTROL);
    type_char(&mut e, 'c');
    press(&mut e, KeyCode::Enter, 0);
    assert_eq!(e.view().location(), Location { grapheme_index: 2, line_index: 0 });
    press(&mut e, KeyCode::Char('f'), CONTROL);
    assert!(e.is_searching());
    assert_eq!(e.bottom_bar_text(1), "Search: c");
}

#[test]
fn search_for_a_missing_query_leaves_the_cursor() {
    let mut e = editor(None, "abc");
    press(&mut e, KeyCode::Right, 0);
    press(&mut e, KeyCode::Char('f'), CONTROL);
    type_char(&mut e, 'x');
    press(&mut e, KeyCode::Enter, 0);
    assert_eq!(e.view().location(), Location { grapheme_index: 1, line_index: 0 });
    press(&mut e, KeyCode::Down, 0);
    assert_eq!(e.view().location(), Location { grapheme_index: 1, line_index: 0 });
}
