//! The six animal kinds, ordered by strength.

use vstd::prelude::*;

verus! {

/// An Arimaa animal.  The declaration order is the strength order:
/// a Rabbit is the weakest piece and an Elephant the strongest.
#[derive(Clone, Copy, Debug, PartialEq, Eq, Structural, Hash, PartialOrd, Ord)]
pub enum Piece {
    Rabbit,
    Cat,
    Dog,
    Horse,
    Camel,
    Elephant,
}

impl Piece {
    /// The rank of the piece in the strength order: 0 for a Rabbit up to
    /// 5 for an Elephant.
    pub open spec fn spec_strength(self) -> int {
        match self {
            Piece::Rabbit => 0,
            Piece::Cat => 1,
            Piece::Dog => 2,
            Piece::Horse => 3,
            Piece::Camel => 4,
            Piece::Elephant => 5,
        }
    }

    /// The rank of the piece in the strength order.
    pub fn strength(self) -> (r: u8)
        ensures
            r == self.spec_strength(),
    {
        match self {
            Piece::Rabbit => 0,
            Piece::Cat => 1,
            Piece::Dog => 2,
            Piece::Horse => 3,
            Piece::Camel => 4,
            Piece::Elephant => 5,
        }
    }

    /// True when `self` is strictly stronger than `other`.
    pub fn is_stronger_than(self, other: Piece) -> (r: bool)
        ensures
            r == (self.spec_strength() > other.spec_strength()),
    {
        self.strength() > other.strength()
    }

    /// The piece named by `c`, if any, along with whether the letter's case
    /// marks it as a first-player piece (upper case).
    pub open spec fn spec_from_char(c: char) -> Option<(Piece, bool)> {
        match c {
            'E' => Some((Piece::Elephant, true)),
            'M' => Some((Piece::Camel, true)),
            'H' => Some((Piece::Horse, true)),
            'D' => Some((Piece::Dog, true)),
            'C' => Some((Piece::Cat, true)),
            'R' => Some((Piece::Rabbit, true)),
            'e' => Some((Piece::Elephant, false)),
            'm' => Some((Piece::Camel, false)),
            'h' => Some((Piece::Horse, false)),
            'd' => Some((Piece::Dog, false)),
            'c' => Some((Piece::Cat, false)),
            'r' => Some((Piece::Rabbit, false)),
            _ => None,
        }
    }

    /// The letter for the piece: upper case for the first player, lower
    /// case for the second.
    pub open spec fn spec_to_char(self, is_p1: bool) -> char {
        if is_p1 {
            match self {
                Piece::Elephant => 'E',
                Piece::Camel => 'M',
                Piece::Horse => 'H',
                Piece::Dog => 'D',
                Piece::Cat => 'C',
                Piece::Rabbit => 'R',
            }
        } else {
            match self {
                Piece::Elephant => 'e',
                Piece::Camel => 'm',
                Piece::Horse => 'h',
                Piece::Dog => 'd',
                Piece::Cat => 'c',
                Piece::Rabbit => 'r',
            }
        }
    }

    /// The letter for the piece, as an executable value.
    pub fn to_char(self, is_p1: bool) -> (r: char)
        ensures
            r == self.spec_to_char(is_p1),
    {
        if is_p1 {
            match self {
                Piece::Elephant => 'E',
                Piece::Camel => 'M',
                Piece::Horse => 'H',
                Piece::Dog => 'D',
                Piece::Cat => 'C',
                Piece::Rabbit => 'R',
            }
        } else {
            match self {
                Piece::Elephant => 'e',
                Piece::Camel => 'm',
                Piece::Horse => 'h',
                Piece::Dog => 'd',
                Piece::Cat => 'c',
                Piece::Rabbit => 'r',
            }
        }
    }

    /// Parses a one-letter piece name, either case.
    pub fn from_char(c: char) -> (r: Option<(Piece, bool)>)
        ensures
            r == Piece::spec_from_char(c),
    {
        match c {
            'E' => Some((Piece::Elephant, true)),
            'M' => Some((Piece::Camel, true)),
            'H' => Some((Piece::Horse, true)),
            'D' => Some((Piece::Dog, true)),
            'C' => Some((Piece::Cat, true)),
            'R' => Some((Piece::Rabbit, true)),
            'e' => Some((Piece::Elephant, false)),
            'm' => Some((Piece::Camel, false)),
            'h' => Some((Piece::Horse, false)),
            'd' => Some((Piece::Dog, false)),
            'c' => Some((Piece::Cat, false)),
            'r' => Some((Piece::Rabbit, false)),
            _ => None,
        }
    }
}

} // verus!
