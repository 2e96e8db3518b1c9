use rustle::editor::commands::{Direction, EditorCommand};
use rustle::editor::terminal::Size;
use rustle::editor::view::{Location, MatchHighlight, Segment, View};

fn view(text: &str) -> View {
    View::new(Some(text), 2, Size { width: 80, height: 24 })
}

fn at(line_index: usize, grapheme_index: usize) -> Location {
    Location { grapheme_index, line_index }
}

fn parts(segments: Vec<Segment>) -> Vec<(String, Option<MatchHighlight>)> {
    segments.into_iter().map(|s| (s.text, s.highlight)).collect()
}

#[test]
fn search_jumps_to_the_first_match() {
    let mut v = view("abab\nxab");
    v.search_document("ab");
    assert_eq!(v.location(), at(0, 0));
    assert!(v.needs_redraw());
}

#[test]
fn search_starts_at_the_cursor() {
    let mut v = view("abab\nxab");
    v.handle_command(EditorCommand::Move(Direction::Down));
    v.search_document("ab");
    assert_eq!(v.location(), at(1, 1));
}

#[test]
fn search_wraps_to_the_first_match_when_none_follows_the_cursor() {
    let mut v = view("ab\nxy");
    v.handle_command(EditorCommand::Move(Direction::Down));
    v.search_document("ab");
    assert_eq!(v.location(), at(0, 0));
}

#[test]
fn find_next_and_previous_wrap_around() {
    let mut v = view("abab\nxab");
    v.search_document("ab");
    v.find_next();
    assert_eq!(v.location(), at(0, 2));
    v.find_next();
    assert_eq!(v.location(), at(1, 1));
    v.find_next();
    assert_eq!(v.location(), at(0, 0));
    v.find_previous();
    assert_eq!(v.location(), at(1, 1));
}

#[test]
fn previous_undoes_next() {
    let mut v = view("a.a.a");
    v.search_document("a");
    v.find_next();
    let before = v.location();
    v.find_next();
    v.find_previous();
    assert_eq!(v.location(), before);
    v.find_previous();
    v.find_next();
    assert_eq!(v.location(), before);
}

#[test]
fn search_without_a_match_keeps_the_cursor() {
    let mut v = view("abc");
    v.handle_command(EditorCommand::Move(Direction::Right));
    v.search_document("zz");
    assert_eq!(v.location(), at(0, 1));
    v.find_next();
    assert_eq!(v.location(), at(0, 1));
}

#[test]
fn empty_query_clears_the_search() {
    let mut v = view("abc");
    v.search_document("b");
    v.search_document("");
    assert_eq!(parts(v.render_line(0).unwrap()), vec![(String::from("abc"), None)]);
}

#[test]
fn matches_are_found_by_grapheme() {
    let mut v = view("e\u{301}xe\u{301}x");
    v.search_document("x");
    assert_eq!(v.location(), at(0, 1));
    v.find_next();
    assert_eq!(v.location(), at(0, 3));
}

#[test]
fn jump_to_a_missing_match_does_nothing() {
    let mut v = view("ab ab");
    v.search_document("ab");
    v.jump_to_match(1);
    assert_eq!(v.location(), at(0, 3));
    v.jump_to_match(7);
    assert_eq!(v.location(), at(0, 3));
    v.clear_search();
    v.find_next();
    assert_eq!(v.location(), at(0, 3));
}

#[test]
fn rendered_row_highlights_current_and_other_matches() {
    let mut v = view("hello world");
    v.search_document("o");
    let row = parts(v.render_line(0).unwrap());
    assert_eq!(
        row,
        vec![
            (String::from("hell"), None),
            (String::from("o"), Some(MatchHighlight::Current)),
            (String::from(" w"), None),
            (String::from("o"), Some(MatchHighlight::Other)),
            (String::from("rld"), None),
        ]
    );
}

#[test]
fn rows_past_the_text_are_empty() {
    let v = view("ab\ncd");
    assert!(v.render_line(2).is_none());
    assert_eq!(
        parts(v.render_line(0).unwrap()),
        vec![(String::from("ab\u{2423}"), None)]
    );
    assert_eq!(parts(v.render_line(1).unwrap()), vec![(String::from("cd"), None)]);
}

#[test]
fn rendered_row_is_cut_to_the_visible_columns() {
    let mut v = View::new(Some("0123456789abc"), 2, Size { width: 10, height: 4 });
    v.handle_command(EditorCommand::Move(Direction::End));
    assert_eq!(parts(v.render_line(0).unwrap()), vec![(String::from("456789abc"), None)]);
}
