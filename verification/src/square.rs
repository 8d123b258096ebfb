//! Board squares, named by their index in the 64-bit board.
//!
//! Index 0 is a8, the top-left square; index 63 is h1, the bottom-right.
//! Bit `i` of a 64-bit board stands for the square with index `i`.

use vstd::prelude::*;
use vstd::std_specs::bits::u64_trailing_zeros;

verus! {

/// A board square, stored as its bit index.
#[derive(Clone, Copy, Debug, PartialEq, Eq, Structural, Hash, PartialOrd, Ord)]
pub struct Square(pub u8);

impl Square {
    /// True when the index names a real square.
    pub open spec fn wf(self) -> bool {
        self.0 < 64
    }

    /// The index of the square as a plain integer.
    pub open spec fn spec_index(self) -> int {
        self.0 as int
    }

    /// The column number, 0 for column a up to 7 for column h.
    pub open spec fn spec_column(self) -> int {
        self.0 as int % 8
    }

    /// The row number as printed, 1 at the bottom up to 8 at the top.
    pub open spec fn spec_row(self) -> int {
        8 - self.0 as int / 8
    }

    /// The index of the square named by a column letter and a row number.
    pub open spec fn spec_new_index(column: char, row: int) -> int {
        (column as int - 'a' as int) + (8 - row) * 8
    }

    /// The square in the given column (a letter a through h) and row
    /// (1 at the bottom through 8 at the top).
    pub fn new(column: char, row: usize) -> (r: Square)
        requires
            'a' <= column && column <= 'h',
            1 <= row && row <= 8,
        ensures
            r.wf(),
            r.spec_index() == Square::spec_new_index(column, row as int),
    {
        let col: u8 = (column as u8) - 97;
        Square(col + (8 - row as u8) * 8)
    }

    /// The square with the given index.
    pub fn from_index(index: u8) -> (r: Square)
        requires
            index < 64,
        ensures
            r.wf(),
            r.0 == index,
    {
        Square(index)
    }

    /// The square of the lowest set bit of a non-empty board.
    pub fn from_bit_board(board: u64) -> (r: Square)
        requires
            board != 0,
        ensures
            r.wf(),
            r.0 == u64_trailing_zeros(board),
            crate::bits::is_single_bit(board) ==> board == 1u64 << r.0,
    {
        proof {
            vstd::std_specs::bits::axiom_u64_trailing_zeros(board);
            if crate::bits::is_single_bit(board) {
                crate::bits::lemma_single_bit_form(board);
            }
        }
        Square(board.trailing_zeros() as u8)
    }

    /// The board with exactly this square's bit set.
    pub fn as_bit_board(&self) -> (r: u64)
        requires
            self.wf(),
        ensures
            r == 1u64 << self.0,
            crate::bits::is_single_bit(r),
            u64_trailing_zeros(r) == self.0,
    {
        proof {
            crate::bits::lemma_shl_single_bit(self.0 as u64);
        }
        1u64 << self.0
    }

    /// The index of the square.
    pub fn index(&self) -> (r: usize)
        ensures
            r == self.spec_index(),
    {
        self.0 as usize
    }

    /// The column letter, a through h.
    pub fn column_char(&self) -> (r: char)
        requires
            self.wf(),
        ensures
            r as int == 'a' as int + self.spec_column(),
    {
        let col: u8 = self.0 % 8;
        (97 + col) as char
    }

    /// The row number as printed, 1 at the bottom up to 8 at the top.
    pub fn row(&self) -> (r: u8)
        requires
            self.wf(),
        ensures
            r as int == self.spec_row(),
    {
        8 - self.0 / 8
    }

    /// The column letter of the square, a through h.
    pub open spec fn spec_column_char(self) -> char {
        ((97 + self.0 as int % 8) as u8) as char
    }

    /// The row digit of the square, 1 through 8.
    pub open spec fn spec_row_char(self) -> char {
        ((48 + (8 - self.0 as int / 8)) as u8) as char
    }

    /// The square named by a column letter and a row digit, if the pair is
    /// well formed.
    pub open spec fn spec_parse(c0: char, c1: char) -> Option<Square> {
        if 'a' <= c0 && c0 <= 'h' && '1' <= c1 && c1 <= '8' {
            Some(Square(((c0 as int - 'a' as int) + (8 - (c1 as int - '0' as int)) * 8) as u8))
        } else {
            None
        }
    }

    /// Parses a square name such as `a2`: a column letter followed by a
    /// row digit.  Any other pair of characters is rejected.
    pub fn parse_chars(c0: char, c1: char) -> (r: Option<Square>)
        ensures
            r == Square::spec_parse(c0, c1),
            r matches Some(s) ==> s.wf(),
    {
        if 'a' <= c0 && c0 <= 'h' && '1' <= c1 && c1 <= '8' {
            let col: u8 = (c0 as u8) - 97;
            let row: u8 = (c1 as u8) - 48;
            Some(Square(col + (8 - row) * 8))
        } else {
            None
        }
    }

    /// The printed name of the square: its column letter and row digit.
    pub fn to_chars(&self) -> (r: (char, char))
        requires
            self.wf(),
        ensures
            r.0 == self.spec_column_char(),
            r.1 == self.spec_row_char(),
            r.0 as int == 'a' as int + self.spec_column(),
            r.1 as int == '0' as int + self.spec_row(),
            Square::spec_parse(r.0, r.1) == Some(*self),
    {
        let col: u8 = self.0 % 8;
        let row: u8 = 8 - self.0 / 8;
        ((97 + col) as char, (48 + row) as char)
    }
}

} // verus!
