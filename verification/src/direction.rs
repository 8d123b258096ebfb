//! The four step directions, seen from the first player's side of the board.

use vstd::prelude::*;

verus! {

/// A direction of movement.  `Up` leads toward row 8 (the first player's
/// goal row) and `Down` toward row 1.
#[derive(Clone, Copy, Debug, PartialEq, Eq, Structural, Hash, PartialOrd, Ord)]
pub enum Direction {
    Up,
    Right,
    Down,
    Left,
}

impl Direction {
    /// The opposite direction.
    pub open spec fn spec_opposite(self) -> Direction {
        match self {
            Direction::Up => Direction::Down,
            Direction::Right => Direction::Left,
            Direction::Down => Direction::Up,
            Direction::Left => Direction::Right,
        }
    }

    /// The compass letter of the direction: n, e, s or w.
    pub open spec fn spec_to_char(self) -> char {
        match self {
            Direction::Up => 'n',
            Direction::Right => 'e',
            Direction::Down => 's',
            Direction::Left => 'w',
        }
    }

    /// The direction named by a compass letter, if any.
    pub open spec fn spec_from_char(c: char) -> Option<Direction> {
        match c {
            'n' => Some(Direction::Up),
            'e' => Some(Direction::Right),
            's' => Some(Direction::Down),
            'w' => Some(Direction::Left),
            _ => None,
        }
    }

    /// The compass letter of the direction.
    pub fn to_char(self) -> (r: char)
        ensures
            r == self.spec_to_char(),
    {
        match self {
            Direction::Up => 'n',
            Direction::Right => 'e',
            Direction::Down => 's',
            Direction::Left => 'w',
        }
    }

    /// Parses a compass letter.
    pub fn from_char(c: char) -> (r: Option<Direction>)
        ensures
            r == Direction::spec_from_char(c),
    {
        match c {
            'n' => Some(Direction::Up),
            'e' => Some(Direction::Right),
            's' => Some(Direction::Down),
            'w' => Some(Direction::Left),
            _ => None,
        }
    }
}

} // verus!
