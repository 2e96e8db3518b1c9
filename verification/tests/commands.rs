use rustle::editor::commands::{
    Direction, EditorCommand, Event, KeyCode, KeyEvent, CONTROL, SHIFT,
};
use rustle::editor::terminal::Size;

fn key(code: KeyCode, modifiers: u8) -> Event {
    Event::Key(KeyEvent { code, modifiers })
}

#[test]
fn control_keys_map_to_editor_commands() {
    assert_eq!(EditorCommand::try_from(&key(KeyCode::Char('q'), CONTROL)), Ok(EditorCommand::Quit));
    assert_eq!(EditorCommand::try_from(&key(KeyCode::Char('s'), CONTROL)), Ok(EditorCommand::Save));
    assert_eq!(EditorCommand::try_from(&key(KeyCode::Char('f'), CONTROL)), Ok(EditorCommand::Search));
    assert_eq!(EditorCommand::try_from(&key(KeyCode::Char('x'), CONTROL)), Ok(EditorCommand::Ignore));
}

#[test]
fn plain_and_shifted_chars_are_inserted() {
    assert_eq!(EditorCommand::try_from(&key(KeyCode::Char('a'), 0)), Ok(EditorCommand::Insert('a')));
    assert_eq!(EditorCommand::try_from(&key(KeyCode::Char('A'), SHIFT)), Ok(EditorCommand::Insert('A')));
    assert_eq!(EditorCommand::try_from(&key(KeyCode::Tab, 0)), Ok(EditorCommand::Insert('\t')));
    assert_eq!(
        EditorCommand::try_from(&key(KeyCode::Char('a'), CONTROL | SHIFT)),
        Ok(EditorCommand::Ignore)
    );
}

#[test]
fn navigation_keys_move_the_cursor() {
    let cases = [
        (KeyCode::Up, Direction::Up),
        (KeyCode::Down, Direction::Down),
        (KeyCode::Left, Direction::Left),
        (KeyCode::Right, Direction::Right),
        (KeyCode::PageUp, Direction::PageUp),
        (KeyCode::PageDown, Direction::PageDown),
        (KeyCode::Home, Direction::Home),
        (KeyCode::End, Direction::End),
    ];
    for (code, direction) in cases {
        assert_eq!(EditorCommand::try_from(&key(code, 0)), Ok(EditorCommand::Move(direction)));
    }
}

#[test]
fn editing_keys_map_to_commands() {
    assert_eq!(EditorCommand::try_from(&key(KeyCode::Enter, 0)), Ok(EditorCommand::Enter));
    assert_eq!(EditorCommand::try_from(&key(KeyCode::Backspace, 0)), Ok(EditorCommand::Backspace));
    assert_eq!(EditorCommand::try_from(&key(KeyCode::Delete, 0)), Ok(EditorCommand::Delete));
    assert_eq!(EditorCommand::try_from(&key(KeyCode::Esc, 0)), Ok(EditorCommand::Esc));
    assert_eq!(EditorCommand::try_from(&key(KeyCode::Other, 0)), Ok(EditorCommand::Ignore));
}

#[test]
fn resize_event_carries_the_new_size() {
    assert_eq!(
        EditorCommand::try_from(&Event::Resize(80, 24)),
        Ok(EditorCommand::Resize(Size { width: 80, height: 24 }))
    );
}

#[test]
fn other_events_are_refused_with_their_description() {
    let result = EditorCommand::try_from(&Event::Other(String::from("FocusGained")));
    assert_eq!(result, Err(String::from("Event not supported: FocusGained")));
}
