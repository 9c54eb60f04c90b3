//! The four directions of travel and the cell that each one leads to.

use vstd::prelude::*;
use crate::board::Position;

verus! {

/// A direction of travel on the grid.
#[derive(Clone, Copy, Debug, PartialEq, Eq, Structural)]
pub enum Direction {
    Up,
    Down,
    Left,
    Right,
}

/// The row and column one step from `from` in direction `d`: up is one row
/// less, down one row more, left one column less, right one column more.
/// They are plain integers, so a step off the top or the left edge gives -1
/// and no coordinate wraps around.
pub open spec fn target(from: Position, d: Direction) -> (int, int) {
    match d {
        Direction::Up => (from.row - 1, from.col as int),
        Direction::Down => (from.row + 1, from.col as int),
        Direction::Left => (from.row as int, from.col - 1),
        Direction::Right => (from.row as int, from.col + 1),
    }
}

/// The direction that a tick travels in, given what could be read of the
/// player's choice: the choice itself, or down when none could be read.
pub open spec fn heading(snapshot: Option<Direction>) -> Direction {
    match snapshot {
        Some(d) => d,
        None => Direction::Down,
    }
}

/// Computes [`heading`].
pub fn resolve_heading(snapshot: Option<Direction>) -> (d: Direction)
    ensures
        d == heading(snapshot),
{
    match snapshot {
        Some(d) => d,
        None => Direction::Down,
    }
}

} // verus!
