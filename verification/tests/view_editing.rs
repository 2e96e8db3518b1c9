use rustle::editor::commands::{Direction, EditorCommand};
use rustle::editor::terminal::{Position, Size};
use rustle::editor::view::{Location, View};

fn view(text: &str) -> View {
    View::new(Some(text), 2, Size { width: 80, height: 24 })
}

fn text(v: &View) -> String {
    v.buffer.document.to_string()
}

fn at(line_index: usize, grapheme_index: usize) -> Location {
    Location { grapheme_index, line_index }
}

fn go(v: &mut View, direction: Direction) {
    v.handle_command(EditorCommand::Move(direction));
}

#[test]
fn new_view_starts_at_the_top() {
    let v = view("ab\ncd");
    assert_eq!(v.location(), at(0, 0));
    assert_eq!(v.size(), Size { width: 80, height: 22 });
    assert_eq!(v.scroll_offset(), Position { col: 0, row: 0 });
    assert!(v.needs_redraw());
    let status = v.get_status();
    assert_eq!((status.total_lines, status.current_line_idx, status.is_modified), (2, 0, false));
    let empty = View::new(None, 2, Size { width: 80, height: 1 });
    assert_eq!(text(&empty), "");
    assert_eq!(empty.size(), Size { width: 80, height: 0 });
}

#[test]
fn typing_inserts_before_the_cursor_and_moves_it() {
    let mut v = view("ab\ncd");
    v.handle_command(EditorCommand::Insert('X'));
    assert_eq!(text(&v), "Xab\ncd");
    assert_eq!(v.location(), at(0, 1));
    assert!(v.get_status().is_modified);
}

#[test]
fn enter_splits_the_line() {
    let mut v = view("ab");
    go(&mut v, Direction::Right);
    v.handle_command(EditorCommand::Enter);
    assert_eq!(text(&v), "a\nb");
    assert_eq!(v.location(), at(1, 0));
    assert_eq!(v.get_status().total_lines, 2);
}

#[test]
fn backspace_at_line_start_joins_lines() {
    let mut v = view("ab\ncd");
    go(&mut v, Direction::Down);
    assert_eq!(v.location(), at(1, 0));
    v.handle_command(EditorCommand::Backspace);
    assert_eq!(text(&v), "abcd");
    assert_eq!(v.location(), at(0, 2));
}

#[test]
fn backspace_at_the_very_start_does_nothing() {
    let mut v = view("ab");
    v.handle_command(EditorCommand::Backspace);
    assert_eq!(text(&v), "ab");
    assert_eq!(v.location(), at(0, 0));
    assert!(!v.get_status().is_modified);
}

#[test]
fn delete_at_line_end_removes_the_break() {
    let mut v = view("ab\ncd");
    go(&mut v, Direction::End);
    assert_eq!(v.location(), at(0, 2));
    v.handle_command(EditorCommand::Delete);
    assert_eq!(text(&v), "abcd");
    assert_eq!(v.location(), at(0, 2));
}

#[test]
fn delete_at_the_end_of_the_text_does_nothing() {
    let mut v = view("ab");
    go(&mut v, Direction::End);
    v.handle_command(EditorCommand::Delete);
    assert_eq!(text(&v), "ab");
    assert!(!v.get_status().is_modified);
}

#[test]
fn delete_and_backspace_take_whole_graphemes() {
    let mut v = view("e\u{301}x");
    v.handle_command(EditorCommand::Delete);
    assert_eq!(text(&v), "x");
    let mut w = view("xe\u{301}");
    go(&mut w, Direction::End);
    assert_eq!(w.location(), at(0, 2));
    w.handle_command(EditorCommand::Backspace);
    assert_eq!(text(&w), "x");
    assert_eq!(w.location(), at(0, 1));
}

#[test]
fn typing_then_backspace_restores_the_text() {
    let mut v = view("ab\ncd");
    go(&mut v, Direction::Down);
    go(&mut v, Direction::Right);
    v.handle_command(EditorCommand::Insert('z'));
    assert_eq!(text(&v), "ab\nczd");
    v.handle_command(EditorCommand::Backspace);
    assert_eq!(text(&v), "ab\ncd");
    assert_eq!(v.location(), at(1, 1));
}

#[test]
fn right_at_line_end_goes_to_next_line_and_left_comes_back() {
    let mut v = view("ab\ncd");
    go(&mut v, Direction::End);
    go(&mut v, Direction::Right);
    assert_eq!(v.location(), at(1, 0));
    go(&mut v, Direction::Left);
    assert_eq!(v.location(), at(0, 2));
    go(&mut v, Direction::Left);
    assert_eq!(v.location(), at(0, 1));
}

#[test]
fn moves_stop_at_the_edges() {
    let mut v = view("ab\ncd");
    go(&mut v, Direction::Up);
    assert_eq!(v.location(), at(0, 0));
    go(&mut v, Direction::Left);
    assert_eq!(v.location(), at(0, 0));
    go(&mut v, Direction::Down);
    go(&mut v, Direction::Down);
    assert_eq!(v.location(), at(1, 0));
    go(&mut v, Direction::End);
    go(&mut v, Direction::Right);
    assert_eq!(v.location(), at(1, 0));
}

#[test]
fn home_and_end() {
    let mut v = view("abc");
    go(&mut v, Direction::End);
    assert_eq!(v.location(), at(0, 3));
    go(&mut v, Direction::Home);
    assert_eq!(v.location(), at(0, 0));
}

#[test]
fn vertical_moves_keep_the_column_where_the_line_allows() {
    let mut v = view("ab\nc\nxy");
    go(&mut v, Direction::Right);
    go(&mut v, Direction::Down);
    assert_eq!(v.location(), at(1, 1));
}

#[test]
fn vertical_moves_check_the_column_against_the_line_of_that_index() {
    // The column is held against the line whose index equals it: with no
    // third line, the cursor falls back to the start of the line.
    let mut v = view("abc\nx\nyyyy");
    go(&mut v, Direction::End);
    go(&mut v, Direction::Down);
    assert_eq!(v.location(), at(1, 0));
}

#[test]
fn page_down_stops_at_the_last_line() {
    let mut v = view("a\nb\nc");
    v.move_cursor(Direction::PageDown);
    assert_eq!(v.location(), at(2, 0));
    v.move_cursor(Direction::PageUp);
    assert_eq!(v.location(), at(0, 0));
}

#[test]
fn scrolling_follows_the_cursor_down() {
    let mut v = View::new(Some("a\nb\nc\nd\ne"), 2, Size { width: 10, height: 4 });
    assert_eq!(v.size(), Size { width: 10, height: 2 });
    for _ in 0..3 {
        go(&mut v, Direction::Down);
    }
    assert_eq!(v.location(), at(3, 0));
    assert_eq!(v.scroll_offset(), Position { col: 0, row: 2 });
    assert_eq!(v.get_position(), Position { col: 0, row: 1 });
    go(&mut v, Direction::Up);
    go(&mut v, Direction::Up);
    assert_eq!(v.scroll_offset(), Position { col: 0, row: 1 });
    assert_eq!(v.get_position(), Position { col: 0, row: 0 });
}

#[test]
fn scrolling_follows_the_cursor_right() {
    let mut v = View::new(Some("0123456789abc"), 2, Size { width: 10, height: 4 });
    go(&mut v, Direction::End);
    assert_eq!(v.location(), at(0, 13));
    assert_eq!(v.scroll_offset(), Position { col: 4, row: 0 });
    assert_eq!(v.get_position(), Position { col: 9, row: 0 });
}

#[test]
fn wide_graphemes_take_two_columns() {
    let mut v = view("\u{4E2D}\u{6587}x");
    go(&mut v, Direction::Right);
    go(&mut v, Direction::Right);
    assert_eq!(v.get_position(), Position { col: 4, row: 0 });
}

#[test]
fn resize_keeps_the_bottom_margin() {
    let mut v = view("ab");
    v.mark_redraw(false);
    v.resize(Size { width: 20, height: 10 });
    assert_eq!(v.size(), Size { width: 20, height: 8 });
    assert!(v.needs_redraw());
    v.set_size(Size { width: 5, height: 5 });
    assert_eq!(v.size(), Size { width: 5, height: 5 });
    v.handle_command(EditorCommand::Resize(Size { width: 30, height: 1 }));
    assert_eq!(v.size(), Size { width: 30, height: 0 });
}

#[test]
fn saving_clears_the_modified_mark() {
    let mut v = view("ab");
    v.handle_command(EditorCommand::Insert('c'));
    assert!(v.get_status().is_modified);
    v.mark_saved();
    assert!(!v.get_status().is_modified);
    assert_eq!(text(&v), "cab");
}

#[test]
fn ignored_commands_change_nothing() {
    let mut v = view("ab");
    for command in [
        EditorCommand::Esc,
        EditorCommand::Quit,
        EditorCommand::Ignore,
        EditorCommand::Save,
        EditorCommand::Search,
    ] {
        v.handle_command(command);
    }
    assert_eq!(text(&v), "ab");
    assert_eq!(v.location(), at(0, 0));
}

#[test]
fn rows_to_draw_leave_the_margin_free() {
    let v = view("ab");
    assert_eq!(v.rows_to_draw(0, 24), (0, 22));
    assert_eq!(v.rows_to_draw(3, 1), (3, 2));
}

#[test]
fn cursor_stays_on_screen_after_each_move() {
    let mut v = View::new(Some("one\ntwo\nthree\nfour\nfive\nsix"), 2, Size { width: 3, height: 5 });
    let moves = [
        Direction::Down,
        Direction::Down,
        Direction::End,
        Direction::Down,
        Direction::Down,
        Direction::PageDown,
        Direction::Up,
        Direction::Home,
        Direction::PageUp,
        Direction::End,
    ];
    for direction in moves {
        v.move_cursor(direction);
        let p = v.get_position();
        assert!(p.row < v.size().height && p.col < v.size().width);
    }
}

#[test]
fn welcome_message_is_centred_a_third_down() {
    let (text, position) = View::welcome_message(Size { width: 80, height: 24 });
    assert_eq!(text, "rustle editor - version 0.1.0");
    assert_eq!(position, Position { col: 26, row: 8 });
    let (narrow, at_narrow) = View::welcome_message(Size { width: 10, height: 5 });
    assert_eq!(narrow, "rustle edi");
    assert_eq!(at_narrow, Position { col: 0, row: 1 });
}

#[test]
fn enter_then_backspace_restores_the_text() {
    let mut v = view("abcd");
    go(&mut v, Direction::Right);
    go(&mut v, Direction::Right);
    v.handle_command(EditorCommand::Enter);
    assert_eq!(text(&v), "ab\ncd");
    assert_eq!(v.location(), at(1, 0));
    v.handle_command(EditorCommand::Backspace);
    assert_eq!(text(&v), "abcd");
    assert_eq!(v.location(), at(0, 2));
}

#[test]
fn page_keys_move_by_one_screen_of_text() {
    let mut v = View::new(Some("0\n1\n2\n3\n4\n5\n6\n7\n8\n9"), 2, Size { width: 10, height: 5 });
    assert_eq!(v.size().height, 3);
    go(&mut v, Direction::PageDown);
    assert_eq!(v.location(), at(3, 0));
    go(&mut v, Direction::PageDown);
    assert_eq!(v.location(), at(6, 0));
    go(&mut v, Direction::PageUp);
    assert_eq!(v.location(), at(3, 0));
    go(&mut v, Direction::PageDown);
    go(&mut v, Direction::PageDown);
    go(&mut v, Direction::PageDown);
    assert_eq!(v.location(), at(9, 0));
}

#[test]
fn left_undoes_right_within_and_across_lines() {
    let mut v = view("ab\ncd");
    for _ in 0..4 {
        let before = v.location();
        go(&mut v, Direction::Right);
        go(&mut v, Direction::Left);
        assert_eq!(v.location(), before);
        go(&mut v, Direction::Right);
    }
}
