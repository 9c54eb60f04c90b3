//! The keyboard: which key does what.

use vstd::prelude::*;
use crate::direction::Direction;

verus! {

/// A key as the player pressed it.
#[derive(Clone, Copy, Debug, PartialEq, Eq, Structural)]
pub enum KeyPress {
    /// A character key.
    Char(char),
    /// A character key held together with the control key.
    Ctrl(char),
    /// The arrow up.
    Up,
    /// The arrow down.
    Down,
    /// The arrow left.
    Left,
    /// The arrow right.
    Right,
    /// Any other key.
    Other,
}

/// What the game does about a key.
#[derive(Clone, Copy, Debug, PartialEq, Eq, Structural)]
pub enum KeyAction {
    /// The snake is to travel in this direction from the next tick on.
    Turn(Direction),
    /// Listening to the keyboard ends.
    Quit,
    /// The key means nothing.
    Ignore,
}

/// The meaning of each key. Three keys stand for each direction: the arrow,
/// and a letter from each of the two usual sets, `w` `a` `s` `d` and `h` `j`
/// `k` `l`. Control with `c` quits.
pub open spec fn meaning(key: KeyPress) -> KeyAction {
    match key {
        KeyPress::Up | KeyPress::Char('w') | KeyPress::Char('k') => KeyAction::Turn(Direction::Up),
        KeyPress::Down | KeyPress::Char('s') | KeyPress::Char('j') => KeyAction::Turn(
            Direction::Down,
        ),
        KeyPress::Left | KeyPress::Char('a') | KeyPress::Char('h') => KeyAction::Turn(
            Direction::Left,
        ),
        KeyPress::Right | KeyPress::Char('d') | KeyPress::Char('l') => KeyAction::Turn(
            Direction::Right,
        ),
        KeyPress::Ctrl('c') => KeyAction::Quit,
        _ => KeyAction::Ignore,
    }
}

/// Computes [`meaning`].
pub fn key_action(key: KeyPress) -> (action: KeyAction)
    ensures
        action == meaning(key),
{
    match key {
        KeyPress::Up => KeyAction::Turn(Direction::Up),
        KeyPress::Down => KeyAction::Turn(Direction::Down),
        KeyPress::Left => KeyAction::Turn(Direction::Left),
        KeyPress::Right => KeyAction::Turn(Direction::Right),
        KeyPress::Char(c) => {
            if c == 'w' || c == 'k' {
                KeyAction::Turn(Direction::Up)
            } else if c == 's' || c == 'j' {
                KeyAction::Turn(Direction::Down)
            } else if c == 'a' || c == 'h' {
                KeyAction::Turn(Direction::Left)
            } else if c == 'd' || c == 'l' {
                KeyAction::Turn(Direction::Right)
            } else {
                KeyAction::Ignore
            }
        },
        KeyPress::Ctrl(c) => {
            if c == 'c' {
                KeyAction::Quit
            } else {
                KeyAction::Ignore
            }
        },
        KeyPress::Other => KeyAction::Ignore,
    }
}

} // verus!
