//! Keys that the editor reacts to and the command each one stands for.

use vstd::prelude::*;
use crate::editor::Direction;

verus! {

/// A key as the editor sees it.
#[derive(Clone, Copy, PartialEq, Eq, Structural, Debug)]
pub enum Key {
    Char(char),
    Backspace,
    Enter,
    Left,
    Right,
    Up,
    Down,
    /// Any other key.
    Other,
}

/// What a key press asks of the editor.
#[derive(Clone, Copy, PartialEq, Eq, Structural, Debug)]
pub enum Command {
    /// Leave the editor (Ctrl+Q).
    Quit,
    /// Write the buffer to its file (Ctrl+W).
    Save,
    /// Type a char.
    Write(char),
    /// Backspace.
    Delete,
    /// Enter.
    Newline,
    /// Shift the view of the active line (Ctrl+Left, Ctrl+Right).
    Scroll(Direction),
    /// Move the cursor.
    Move(Direction),
    /// Nothing to do.
    Ignore,
}

/// The command for a pressed key, `ctrl` telling whether Control was held.
pub fn decide_command(key: Key, ctrl: bool) -> (r: Command)
    ensures
        r == match key {
            Key::Char(c) => if c == 'q' && ctrl {
                Command::Quit
            } else if c == 'w' && ctrl {
                Command::Save
            } else if ctrl {
                Command::Ignore
            } else {
                Command::Write(c)
            },
            Key::Backspace => Command::Delete,
            Key::Enter => Command::Newline,
            Key::Left => if ctrl {
                Command::Scroll(Direction::Left)
            } else {
                Command::Move(Direction::Left)
            },
            Key::Right => if ctrl {
                Command::Scroll(Direction::Right)
            } else {
                Command::Move(Direction::Right)
            },
            Key::Up => Command::Move(Direction::Up),
            Key::Down => Command::Move(Direction::Down),
            Key::Other => Command::Ignore,
        },
{
    match key {
        Key::Char('q') => {
            if ctrl {
                Command::Quit
            } else {
                Command::Write('q')
            }
        },
        Key::Char('w') => {
            if ctrl {
                Command::Save
            } else {
                Command::Write('w')
            }
        },
        Key::Char(c) => {
            if !ctrl {
                Command::Write(c)
            } else {
                Command::Ignore
            }
        },
        Key::Backspace => Command::Delete,
        Key::Enter => Command::Newline,
        Key::Left => {
            if ctrl {
                Command::Scroll(Direction::Left)
            } else {
                Command::Move(Direction::Left)
            }
        },
        Key::Right => {
            if ctrl {
                Command::Scroll(Direction::Right)
            } else {
                Command::Move(Direction::Right)
            }
        },
        Key::Up => Command::Move(Direction::Up),
        Key::Down => Command::Move(Direction::Down),
        Key::Other => Command::Ignore,
    }
}

} // verus!
