//! Player actions: placing a piece during setup, moving a piece one step,
//! or passing the rest of a turn.

use vstd::prelude::*;
use vstd::std_specs::bits::u64_trailing_zeros;
use crate::direction::Direction;
use crate::piece::Piece;
use crate::square::Square;

verus! {

/// One step of play.
#[derive(Clone, Copy, Debug, PartialEq, Eq, Structural, Hash)]
pub enum Action {
    Place(Piece),
    Move(Square, Direction),
    Pass,
}

/// The squares of the set bits of `b` with index below `n`, lowest first.
pub open spec fn squares_upto(b: u64, n: nat) -> Seq<Square>
    decreases n,
{
    if n == 0 {
        Seq::empty()
    } else {
        squares_upto(b, (n - 1) as nat) + (if (b >> ((n - 1) as u64)) & 1u64 == 1u64 {
            seq![Square((n - 1) as u8)]
        } else {
            Seq::<Square>::empty()
        })
    }
}

/// The squares of the set bits of `b`, in increasing index order.
pub open spec fn spec_squares(b: u64) -> Seq<Square> {
    squares_upto(b, 64)
}

/// A board whose bits below `n` are clear contributes no squares below `n`.
proof fn lemma_squares_upto_empty(b: u64, n: nat)
    requires
        n <= 64,
        forall|j: u64| j < n ==> #[trigger] (b >> j) & 1u64 == 0u64,
    ensures
        squares_upto(b, n) == Seq::<Square>::empty(),
    decreases n,
{
    if n != 0 {
        lemma_squares_upto_empty(b, (n - 1) as nat);
        assert((b >> ((n - 1) as u64)) & 1u64 == 0u64);
        assert(squares_upto(b, n) =~= Seq::<Square>::empty());
    }
}

/// Clearing bit `i` of a board removes exactly the square `i` from the front
/// of its square list, provided every bit below `i` is already clear.
proof fn lemma_squares_upto_split(b: u64, i: u64, n: nat)
    requires
        i < 64,
        n <= 64,
        (b >> i) & 1u64 == 1u64,
        forall|j: u64| j < i ==> #[trigger] (b >> j) & 1u64 == 0u64,
    ensures
        squares_upto(b, n) == (if n > i {
            seq![Square(i as u8)] + squares_upto(b & !(1u64 << i), n)
        } else {
            Seq::<Square>::empty()
        }),
    decreases n,
{
    let b2 = b & !(1u64 << i);
    crate::bits::lemma_clear_bit_facts(b, i);
    if n == 0 {
    } else {
        lemma_squares_upto_split(b, i, (n - 1) as nat);
        if n - 1 < i {
            assert((b >> ((n - 1) as u64)) & 1u64 == 0u64);
            assert(squares_upto(b, n) =~= Seq::<Square>::empty());
        } else if n - 1 == i {
            assert(squares_upto(b, (n - 1) as nat) == Seq::<Square>::empty());
            assert(forall|j: u64| j < (n - 1) as u64 ==> #[trigger] (b2 >> j) & 1u64 == 0u64);
            lemma_squares_upto_empty(b2, (n - 1) as nat);
            assert(squares_upto(b2, n) =~= Seq::<Square>::empty());
            assert(squares_upto(b, n) =~= seq![Square(i as u8)] + squares_upto(b2, n));
        } else {
            assert((b2 >> ((n - 1) as u64)) & 1u64 == (b >> ((n - 1) as u64)) & 1u64);
            assert(squares_upto(b, n) =~= seq![Square(i as u8)] + squares_upto(b2, n));
        }
    }
}

/// Every square listed for a board is a real square, and the squares are
/// exactly the set bits of the board.
pub proof fn lemma_squares_upto_wf(b: u64, n: nat)
    requires
        n <= 64,
    ensures
        forall|k: int|
            0 <= k < squares_upto(b, n).len() ==> (#[trigger] squares_upto(b, n)[k]).wf(),
    decreases n,
{
    if n != 0 {
        lemma_squares_upto_wf(b, (n - 1) as nat);
        let s1 = squares_upto(b, (n - 1) as nat);
        let s = squares_upto(b, n);
        assert forall|k: int| 0 <= k < s.len() implies (#[trigger] s[k]).wf() by {
            if k < s1.len() {
                assert(s[k] == s1[k]);
            } else {
                assert(s[k] == Square((n - 1) as u8));
            }
        }
    }
}

/// Every listed square is a set bit of the board, below the cut-off.
pub proof fn lemma_squares_upto_bits(b: u64, n: nat)
    requires
        n <= 64,
    ensures
        forall|k: int|
            0 <= k < squares_upto(b, n).len() ==> (#[trigger] squares_upto(b, n)[k]).0 < n && (b
                >> (squares_upto(b, n)[k].0 as u64)) & 1u64 == 1u64,
    decreases n,
{
    if n != 0 {
        lemma_squares_upto_bits(b, (n - 1) as nat);
        let s1 = squares_upto(b, (n - 1) as nat);
        let s = squares_upto(b, n);
        assert forall|k: int|
            0 <= k < s.len() implies (#[trigger] s[k]).0 < n && (b >> (s[k].0 as u64)) & 1u64
            == 1u64 by {
            if k < s1.len() {
                assert(s[k] == s1[k]);
            } else {
                assert(s[k] == Square((n - 1) as u8));
            }
        }
    }
}

/// The squares of the set bits of a board, in increasing index order.
pub fn map_bit_board_to_squares(board: u64) -> (r: Vec<Square>)
    ensures
        r@ == spec_squares(board),
{
    let ghost orig = board;
    let mut board = board;
    let mut squares: Vec<Square> = Vec::new();
    proof {
        assert(squares@ + spec_squares(board) =~= spec_squares(orig));
    }
    while board != 0
        invariant
            squares@ + spec_squares(board) == spec_squares(orig),
        decreases board,
    {
        proof {
            vstd::std_specs::bits::axiom_u64_trailing_zeros(board);
            crate::bits::lemma_clear_low_bit(board);
            lemma_squares_upto_split(board, u64_trailing_zeros(board) as u64, 64);
        }
        let ghost prev = board;
        let ghost done = squares@;
        let bit_idx: u32 = board.trailing_zeros();
        let square = Square::from_index(bit_idx as u8);
        squares.push(square);
        board = board ^ (1u64 << (bit_idx as u64));
        proof {
            assert(spec_squares(prev) == seq![Square(u64_trailing_zeros(prev) as u8)]
                + spec_squares(board));
            assert(squares@ + spec_squares(board) =~= done + spec_squares(prev));
        }
    }
    proof {
        crate::bits::lemma_word_trivia(0, 0, 0);
        lemma_squares_upto_empty(0u64, 64);
        assert(squares@ =~= squares@ + spec_squares(0u64));
        assert(squares@ == spec_squares(orig));
    }
    squares
}

impl Action {
    /// The action named by a string: `p` for a pass, a piece letter for a
    /// placement, or a square name followed by a compass letter for a step.
    pub open spec fn spec_parse(s: Seq<char>) -> Option<Action> {
        if s.len() == 1 {
            if s[0] == 'p' {
                Some(Action::Pass)
            } else {
                match Piece::spec_from_char(s[0]) {
                    Some((piece, _)) => Some(Action::Place(piece)),
                    None => None,
                }
            }
        } else if s.len() == 3 {
            match Square::spec_parse(s[0], s[1]) {
                Some(square) => match Direction::spec_from_char(s[2]) {
                    Some(dir) => Some(Action::Move(square, dir)),
                    None => None,
                },
                None => None,
            }
        } else {
            None
        }
    }

    /// Parses an action name.  Rejects anything but `p`, a one-letter piece
    /// name, or a square name followed by a direction letter.
    pub fn parse_str(s: &str) -> (r: Option<Action>)
        ensures
            r == Action::spec_parse(s@),
            r matches Some(Action::Move(sq, _)) ==> sq.wf(),
    {
        let n = s.unicode_len();
        if n == 1 {
            let c = s.get_char(0);
            if c == 'p' {
                Some(Action::Pass)
            } else {
                match Piece::from_char(c) {
                    Some((piece, _)) => Some(Action::Place(piece)),
                    None => None,
                }
            }
        } else if n == 3 {
            let c0 = s.get_char(0);
            let c1 = s.get_char(1);
            let c2 = s.get_char(2);
            match Square::parse_chars(c0, c1) {
                Some(square) => match Direction::from_char(c2) {
                    Some(dir) => Some(Action::Move(square, dir)),
                    None => None,
                },
                None => None,
            }
        } else {
            None
        }
    }

    /// The printed name of the action.
    pub open spec fn spec_text(self) -> Seq<char> {
        match self {
            Action::Pass => seq!['p'],
            Action::Place(piece) => seq![piece.spec_to_char(false)],
            Action::Move(square, dir) => seq![
                square.spec_column_char(),
                square.spec_row_char(),
                dir.spec_to_char(),
            ],
        }
    }

    /// Writes the action's name: `p`, the piece's lower-case letter, or the
    /// square name followed by the direction letter.
    pub fn text(&self) -> (r: Vec<char>)
        requires
            self matches Action::Move(sq, _) ==> sq.wf(),
        ensures
            r@ == self.spec_text(),
    {
        let mut out: Vec<char> = Vec::new();
        match self {
            Action::Pass => {
                out.push('p');
            },
            Action::Place(piece) => {
                out.push(piece.to_char(false));
            },
            Action::Move(square, dir) => {
                let (c0, c1) = square.to_chars();
                out.push(c0);
                out.push(c1);
                out.push(dir.to_char());
            },
        }
        proof {
            assert(out@ =~= self.spec_text());
        }
        out
    }
}

} // verus!
