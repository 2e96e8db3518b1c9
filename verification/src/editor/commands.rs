use vstd::prelude::*;

use super::terminal::Size;

verus! {

/// Where the cursor moves.
#[derive(Clone, Copy, PartialEq, Eq, Structural, Debug)]
pub enum Direction {
    PageUp,
    PageDown,
    Home,
    End,
    Up,
    Left,
    Right,
    Down,
}

/// What a key press or a resize of the terminal asks of the editor.
#[derive(Clone, Copy, PartialEq, Eq, Structural, Debug)]
pub enum EditorCommand {
    Move(Direction),
    Resize(Size),
    Insert(char),
    Ignore,
    Backspace,
    Enter,
    Delete,
    Save,
    Search,
    Esc,
    Quit,
}

/// A key of the keyboard, as far as the editor tells keys apart.
#[derive(Clone, Copy, PartialEq, Eq, Structural, Debug)]
pub enum KeyCode {
    Backspace,
    Enter,
    Left,
    Right,
    Up,
    Down,
    Home,
    End,
    PageUp,
    PageDown,
    Tab,
    Delete,
    Esc,
    Char(char),
    /// Any other key.
    Other,
}

/// The modifier bit of the Shift key.
pub const SHIFT: u8 = 0b0000_0001u8;

/// The modifier bit of the Control key.
pub const CONTROL: u8 = 0b0000_0010u8;

/// A key press: the key and the bits of the modifier keys held with it.
#[derive(Clone, Copy, PartialEq, Eq, Structural, Debug)]
pub struct KeyEvent {
    pub code: KeyCode,
    pub modifiers: u8,
}

/// What the terminal reports.
pub enum Event {
    /// A key was pressed.
    Key(KeyEvent),
    /// The terminal now has this many columns and rows.
    Resize(u16, u16),
    /// Anything else (a key released or repeated, the mouse, focus, a
    /// paste), by its description.
    Other(String),
}

/// The text that opens the message for an event the editor does not handle.
pub open spec fn unsupported_prefix() -> Seq<char> {
    seq![
        'E', 'v', 'e', 'n', 't', ' ', 'n', 'o', 't', ' ', 's', 'u', 'p', 'p', 'o', 'r', 't',
        'e', 'd', ':', ' ',
    ]
}

/// The command a key press asks for.
pub open spec fn key_command(key: KeyEvent) -> EditorCommand {
    match key.code {
        KeyCode::Char(c) => if key.modifiers == CONTROL && c == 'q' {
            EditorCommand::Quit
        } else if key.modifiers == CONTROL && c == 's' {
            EditorCommand::Save
        } else if key.modifiers == CONTROL && c == 'f' {
            EditorCommand::Search
        } else if key.modifiers == 0 || key.modifiers == SHIFT {
            EditorCommand::Insert(c)
        } else {
            EditorCommand::Ignore
        },
        KeyCode::Esc => EditorCommand::Esc,
        KeyCode::Tab => EditorCommand::Insert('\t'),
        KeyCode::Enter => EditorCommand::Enter,
        KeyCode::Delete => EditorCommand::Delete,
        KeyCode::Backspace => EditorCommand::Backspace,
        KeyCode::Up => EditorCommand::Move(Direction::Up),
        KeyCode::Down => EditorCommand::Move(Direction::Down),
        KeyCode::Left => EditorCommand::Move(Direction::Left),
        KeyCode::Right => EditorCommand::Move(Direction::Right),
        KeyCode::PageUp => EditorCommand::Move(Direction::PageUp),
        KeyCode::PageDown => EditorCommand::Move(Direction::PageDown),
        KeyCode::Home => EditorCommand::Move(Direction::Home),
        KeyCode::End => EditorCommand::Move(Direction::End),
        KeyCode::Other => EditorCommand::Ignore,
    }
}

impl EditorCommand {
    /// The command that `event` asks for; an event other than a key press or
    /// a resize is refused with a message that names it.
    pub fn try_from(event: &Event) -> (command: Result<Self, String>)
        ensures
            match event {
                Event::Key(key) => command == Ok::<EditorCommand, String>(key_command(*key)),
                Event::Resize(width, height) => command == Ok::<EditorCommand, String>(
                    EditorCommand::Resize(Size { width: *width, height: *height }),
                ),
                Event::Other(description) => command matches Err(message) && message@
                    == unsupported_prefix() + description@,
            },
    {
        match event {
            Event::Key(KeyEvent { code, modifiers }) => match code {
                KeyCode::Char(c) => {
                    if *modifiers == CONTROL && *c == 'q' {
                        Ok(Self::Quit)
                    } else if *modifiers == CONTROL && *c == 's' {
                        Ok(Self::Save)
                    } else if *modifiers == CONTROL && *c == 'f' {
                        Ok(Self::Search)
                    } else if *modifiers == 0 || *modifiers == SHIFT {
                        Ok(Self::Insert(*c))
                    } else {
                        Ok(Self::Ignore)
                    }
                },
                KeyCode::Esc => Ok(Self::Esc),
                KeyCode::Tab => Ok(Self::Insert('\t')),
                KeyCode::Enter => Ok(Self::Enter),
                KeyCode::Delete => Ok(Self::Delete),
                KeyCode::Backspace => Ok(Self::Backspace),
                KeyCode::Up => Ok(Self::Move(Direction::Up)),
                KeyCode::Down => Ok(Self::Move(Direction::Down)),
                KeyCode::Left => Ok(Self::Move(Direction::Left)),
                KeyCode::Right => Ok(Self::Move(Direction::Right)),
                KeyCode::PageUp => Ok(Self::Move(Direction::PageUp)),
                KeyCode::PageDown => Ok(Self::Move(Direction::PageDown)),
                KeyCode::Home => Ok(Self::Move(Direction::Home)),
                KeyCode::End => Ok(Self::Move(Direction::End)),
                KeyCode::Other => Ok(Self::Ignore),
            },
            Event::Resize(width, height) => Ok(Self::Resize(Size { width: *width, height: *height })),
            Event::Other(description) => {
                let mut message = String::new();
                message.append("Event not supported: ");
                message.append(description.as_str());
                proof {
                    reveal_strlit("Event not supported: ");
                }
                assert(message@ =~= unsupported_prefix() + description@);
                Err(message)
            },
        }
    }
}

/// The keys other than characters do the same whatever modifier keys are
/// held with them.
pub proof fn lemma_keys_ignore_modifiers(code: KeyCode, modifiers: u8)
    requires
        !(code is Char),
    ensures
        key_command(KeyEvent { code, modifiers }) == key_command(KeyEvent { code, modifiers: 0 }),
{
}

/// The arrow keys, Home, End, PageUp and PageDown move the cursor in their
/// direction, with any modifier keys held.
pub proof fn lemma_navigation_keys_move(modifiers: u8)
    ensures
        key_command(KeyEvent { code: KeyCode::Up, modifiers }) == EditorCommand::Move(Direction::Up),
        key_command(KeyEvent { code: KeyCode::Down, modifiers }) == EditorCommand::Move(
            Direction::Down,
        ),
        key_command(KeyEvent { code: KeyCode::Left, modifiers }) == EditorCommand::Move(
            Direction::Left,
        ),
        key_command(KeyEvent { code: KeyCode::Right, modifiers }) == EditorCommand::Move(
            Direction::Right,
        ),
        key_command(KeyEvent { code: KeyCode::PageUp, modifiers }) == EditorCommand::Move(
            Direction::PageUp,
        ),
        key_command(KeyEvent { code: KeyCode::PageDown, modifiers }) == EditorCommand::Move(
            Direction::PageDown,
        ),
        key_command(KeyEvent { code: KeyCode::Home, modifiers }) == EditorCommand::Move(
            Direction::Home,
        ),
        key_command(KeyEvent { code: KeyCode::End, modifiers }) == EditorCommand::Move(
            Direction::End,
        ),
{
}

/// A char typed alone or with Shift is inserted; Ctrl-Q, Ctrl-S and Ctrl-F
/// quit, save and search.
pub proof fn lemma_char_keys(c: char)
    ensures
        key_command(KeyEvent { code: KeyCode::Char(c), modifiers: 0 }) == EditorCommand::Insert(c),
        key_command(KeyEvent { code: KeyCode::Char(c), modifiers: SHIFT }) == EditorCommand::Insert(
            c,
        ),
        key_command(KeyEvent { code: KeyCode::Char('q'), modifiers: CONTROL })
            == EditorCommand::Quit,
        key_command(KeyEvent { code: KeyCode::Char('s'), modifiers: CONTROL })
            == EditorCommand::Save,
        key_command(KeyEvent { code: KeyCode::Char('f'), modifiers: CONTROL })
            == EditorCommand::Search,
{
}

} // verus!
