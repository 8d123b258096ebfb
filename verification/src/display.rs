//! The human-readable board text: rendering a position as the bordered
//! eight-rank grid, and reading such a grid back.

use vstd::prelude::*;
use crate::board::{spec_piece_at, PieceBoard, PieceBoardState};
use crate::game::{GameState, Phase, PhaseModel, PlayModel, PlayPhase, PushPullState, StateModel};
use crate::list::List;
use crate::piece::Piece;
use crate::square::Square;
use crate::zobrist::Zobrist;

verus! {

/// The piece named by a board letter, if any, along with its owner:
/// upper case marks the first player.
pub fn convert_char_to_piece(c: char) -> (r: Option<(Piece, bool)>)
    ensures
        r == Piece::spec_from_char(c),
{
    Piece::from_char(c)
}

/// True when the first player's mask holds the square bit.
pub fn is_p1_piece(square_bit: u64, piece_board: &PieceBoardState) -> (r: bool)
    ensures
        r == (square_bit & piece_board.p1_pieces != 0),
{
    let p1_piece_mask = piece_board.player_piece_mask(true);
    (square_bit & p1_piece_mask) != 0
}

/// The board letter of a piece, as a string: upper case for the first
/// player, lower case for the second.
pub fn convert_piece_to_letter(piece: &Piece, is_p1: bool) -> (r: String)
    ensures
        r@ == seq![piece.spec_to_char(is_p1)],
{
    proof {
        reveal_strlit("E");
        reveal_strlit("M");
        reveal_strlit("H");
        reveal_strlit("D");
        reveal_strlit("C");
        reveal_strlit("R");
        reveal_strlit("e");
        reveal_strlit("m");
        reveal_strlit("h");
        reveal_strlit("d");
        reveal_strlit("c");
        reveal_strlit("r");
    }
    let s: &str = if is_p1 {
        match piece {
            Piece::Elephant => "E",
            Piece::Camel => "M",
            Piece::Horse => "H",
            Piece::Dog => "D",
            Piece::Cat => "C",
            Piece::Rabbit => "R",
        }
    } else {
        match piece {
            Piece::Elephant => "e",
            Piece::Camel => "m",
            Piece::Horse => "h",
            Piece::Dog => "d",
            Piece::Cat => "c",
            Piece::Rabbit => "r",
        }
    };
    String::from_str(s)
}

/// The character printed for one square: the piece letter, an `x` on an
/// empty trap square, or a space.
pub open spec fn spec_cell_char(pb: PieceBoardState, idx: int) -> char {
    if (1u64 << (idx as u64)) & pb.all_pieces != 0 {
        spec_piece_at(1u64 << (idx as u64), pb).spec_to_char(
            (1u64 << (idx as u64)) & pb.p1_pieces != 0,
        )
    } else if idx == 18 || idx == 21 || idx == 42 || idx == 45 {
        'x'
    } else {
        ' '
    }
}

/// The text of one rank's cells from a column onward: a space before
/// each cell, closed by ` |` and a newline.
pub open spec fn spec_cells_from(pb: PieceBoardState, row_idx: int, col: int) -> Seq<char>
    decreases 8 - col,
{
    if col >= 8 {
        seq![' ', '|', '\n']
    } else {
        seq![' ', spec_cell_char(pb, row_idx * 8 + col)] + spec_cells_from(pb, row_idx, col + 1)
    }
}

/// The digit characters of a number, most significant first.
pub open spec fn spec_decimal(n: int) -> Seq<char>
    decreases n,
{
    if n <= 9 {
        seq![spec_digit_char(if n < 0 {
            0
        } else {
            n
        })]
    } else {
        spec_decimal(n / 10) + seq![spec_digit_char(n % 10)]
    }
}

/// The character of one decimal digit.
pub open spec fn spec_digit_char(d: int) -> char {
    if d == 0 {
        '0'
    } else if d == 1 {
        '1'
    } else if d == 2 {
        '2'
    } else if d == 3 {
        '3'
    } else if d == 4 {
        '4'
    } else if d == 5 {
        '5'
    } else if d == 6 {
        '6'
    } else if d == 7 {
        '7'
    } else if d == 8 {
        '8'
    } else {
        '9'
    }
}

/// The full text of the ranks from one row downward.
pub open spec fn spec_rows_from(pb: PieceBoardState, row_idx: int) -> Seq<char>
    decreases 8 - row_idx,
{
    if row_idx >= 8 {
        Seq::<char>::empty()
    } else {
        seq![spec_digit_char(8 - row_idx), '|'] + spec_cells_from(pb, row_idx, 0) + spec_rows_from(
            pb,
            row_idx + 1,
        )
    }
}

/// The horizontal border line of the board text.
pub open spec fn spec_border() -> Seq<char> {
    seq![' ', '+', '-', '-', '-', '-', '-', '-', '-', '-', '-', '-', '-', '-', '-', '-', '-', '-', '-', '+', '\n']
}

/// The column-label line closing the board text.
pub open spec fn spec_labels() -> Seq<char> {
    seq![' ', ' ', ' ', 'a', ' ', 'b', ' ', 'c', ' ', 'd', ' ', 'e', ' ', 'f', ' ', 'g', ' ', 'h', '\n']
}

/// The complete board text of a position: the move number and side
/// letter, the bordered grid, and the column labels.
pub open spec fn spec_board_text(m: StateModel) -> Seq<char> {
    spec_decimal(m.move_number) + seq![if m.p1_turn {
        'g'
    } else {
        's'
    }, '\n'] + spec_border() + spec_rows_from(m.pb, 0) + spec_border() + spec_labels()
}

/// Appends the decimal digits of a number.
fn append_decimal(out: &mut String, n: usize)
    ensures
        final(out)@ == old(out)@ + spec_decimal(n as int),
    decreases n,
{
    proof {
        reveal_strlit("0");
        reveal_strlit("1");
        reveal_strlit("2");
        reveal_strlit("3");
        reveal_strlit("4");
        reveal_strlit("5");
        reveal_strlit("6");
        reveal_strlit("7");
        reveal_strlit("8");
        reveal_strlit("9");
    }
    if n > 9 {
        append_decimal(out, n / 10);
    }
    let d = n % 10;
    let s: &str = if d == 0 {
        "0"
    } else if d == 1 {
        "1"
    } else if d == 2 {
        "2"
    } else if d == 3 {
        "3"
    } else if d == 4 {
        "4"
    } else if d == 5 {
        "5"
    } else if d == 6 {
        "6"
    } else if d == 7 {
        "7"
    } else if d == 8 {
        "8"
    } else {
        "9"
    };
    out.append(s);
    proof {
        assert(final(out)@ =~= old(out)@ + spec_decimal(n as int));
    }
}

impl GameState {
    /// Renders the position as its board text.
    pub fn to_board_string(&self) -> (r: String)
        ensures
            r@ == spec_board_text(self@),
    {
        proof {
            reveal_strlit("g");
            reveal_strlit("s");
            reveal_strlit("\n");
            reveal_strlit(" +-----------------+\n");
            reveal_strlit("   a b c d e f g h\n");
            reveal_strlit("|");
            reveal_strlit(" ");
            reveal_strlit("x");
            reveal_strlit("1");
            reveal_strlit("2");
            reveal_strlit("3");
            reveal_strlit("4");
            reveal_strlit("5");
            reveal_strlit("6");
            reveal_strlit("7");
            reveal_strlit("8");
        }
        let piece_board = self.piece_board();
        let mut out = String::new();
        append_decimal(&mut out, self.move_number());
        out.append(
            if self.is_p1_turn_to_move() {
                "g"
            } else {
                "s"
            },
        );
        out.append("\n");
        out.append(" +-----------------+\n");
        proof {
            assert(out@ =~= spec_decimal(self@.move_number) + seq![if self@.p1_turn {
                'g'
            } else {
                's'
            }, '\n'] + spec_border());
        }
        let ghost head = out@;
        let mut row_idx: usize = 0;
        while row_idx < 8
            invariant
                row_idx <= 8,
                *piece_board == self@.pb,
                out@ == head + spec_rows_prefix(self@.pb, row_idx as int),
            decreases 8 - row_idx,
        {
            let digit: &str = match 8 - row_idx {
                8 => "8",
                7 => "7",
                6 => "6",
                5 => "5",
                4 => "4",
                3 => "3",
                2 => "2",
                _ => "1",
            };
            proof {
                reveal_strlit("1");
                reveal_strlit("2");
                reveal_strlit("3");
                reveal_strlit("4");
                reveal_strlit("5");
                reveal_strlit("6");
                reveal_strlit("7");
                reveal_strlit("8");
                reveal_strlit("|");
                reveal_strlit(" ");
                reveal_strlit("x");
                reveal_strlit(" |\n");
                assert(digit@ =~= seq![spec_digit_char(8 - row_idx as int)]);
                assert(" |\n"@ =~= seq![' ', '|', '\n']);
            }
            out.append(digit);
            out.append("|");
            let ghost row_head = out@;
            let mut col_idx: usize = 0;
            while col_idx < 8
                invariant
                    col_idx <= 8,
                    row_idx < 8,
                    *piece_board == self@.pb,
                    out@ + spec_cells_from(self@.pb, row_idx as int, col_idx as int) == row_head
                        + spec_cells_from(self@.pb, row_idx as int, 0),
                decreases 8 - col_idx,
            {
                proof {
                    reveal_strlit(" ");
                    reveal_strlit("x");
                }
                let idx = (row_idx * 8 + col_idx) as u8;
                let square = Square::from_index(idx);
                proof {
                    crate::bits::lemma_shl_single_bit(idx as u64);
                }
                out.append(" ");
                match piece_board.piece_type_at_square(&square) {
                    Some(piece) => {
                        let is_p1 = is_p1_piece(square.as_bit_board(), piece_board);
                        let letter = convert_piece_to_letter(&piece, is_p1);
                        out.append(letter.as_str());
                    },
                    None => {
                        if idx == 18 || idx == 21 || idx == 42 || idx == 45 {
                            out.append("x");
                        } else {
                            out.append(" ");
                        }
                    },
                }
                col_idx = col_idx + 1;
                proof {
                    assert(out@ + spec_cells_from(self@.pb, row_idx as int, col_idx as int)
                        =~= row_head + spec_cells_from(self@.pb, row_idx as int, 0));
                }
            }
            out.append(" |\n");
            row_idx = row_idx + 1;
            proof {
                assert(spec_cells_from(self@.pb, row_idx as int - 1, 8) =~= seq![' ', '|', '\n']);
                assert(out@ =~= head + spec_rows_prefix(self@.pb, row_idx as int));
            }
        }
        out.append(" +-----------------+\n");
        out.append("   a b c d e f g h\n");
        proof {
            lemma_rows_prefix_full(self@.pb);
            assert(out@ =~= spec_board_text(self@));
        }
        out
    }
}

/// A failed parse of board text: the input does not describe a position
/// this engine can hold.
#[derive(Clone, Copy, Debug, PartialEq, Eq, Structural)]
pub struct ParseError;

impl ParseError {
    /// A human-readable account of the failure.
    pub fn message(&self) -> (r: &'static str) {
        "invalid board text"
    }
}

/// True for the whitespace the board-text header may start with.
pub open spec fn spec_is_ws(c: char) -> bool {
    c == ' ' || c == '\n' || c == '\t' || c == '\r'
}

/// The value of a digit character, or nothing.
pub open spec fn spec_digit_of(c: char) -> Option<int> {
    if c == '0' {
        Some(0int)
    } else if c == '1' {
        Some(1int)
    } else if c == '2' {
        Some(2int)
    } else if c == '3' {
        Some(3int)
    } else if c == '4' {
        Some(4int)
    } else if c == '5' {
        Some(5int)
    } else if c == '6' {
        Some(6int)
    } else if c == '7' {
        Some(7int)
    } else if c == '8' {
        Some(8int)
    } else if c == '9' {
        Some(9int)
    } else {
        None
    }
}

/// The first index at or past `i` that is not header whitespace.
pub open spec fn spec_skip_ws(s: Seq<char>, i: int) -> int
    decreases s.len() - i,
{
    if i < 0 || i >= s.len() {
        s.len() as int
    } else if spec_is_ws(s[i]) {
        spec_skip_ws(s, i + 1)
    } else {
        i
    }
}

/// The first index at or past `i` that is not a digit.
pub open spec fn spec_skip_digits(s: Seq<char>, i: int) -> int
    decreases s.len() - i,
{
    if i < 0 || i >= s.len() {
        s.len() as int
    } else if spec_digit_of(s[i]) is Some {
        spec_skip_digits(s, i + 1)
    } else {
        i
    }
}

/// The number the digits `s[i..j)` spell.
pub open spec fn spec_digits_value(s: Seq<char>, i: int, j: int) -> int
    decreases j - i,
{
    if j <= i {
        0
    } else {
        spec_digits_value(s, i, j - 1) * 10 + (match spec_digit_of(s[j - 1]) {
            Some(d) => d,
            None => 0,
        })
    }
}

/// The move number and side the header names, if the text starts with
/// optional whitespace, digits, and a side letter.
pub open spec fn spec_header(s0: Seq<char>) -> Option<(int, bool)> {
    let i = spec_skip_ws(s0, 0);
    let j = spec_skip_digits(s0, i);
    if j > i && j < s0.len() && (s0[j] == 'g' || s0[j] == 's' || s0[j] == 'w' || s0[j] == 'b') {
        Some((spec_digits_value(s0, i, j), s0[j] != 's' && s0[j] != 'b'))
    } else {
        None
    }
}

/// The index of the first `|`, or the length when there is none.
pub open spec fn spec_first_bar(s: Seq<char>, i: int) -> int
    decreases s.len() - i,
{
    if i < 0 || i >= s.len() {
        s.len() as int
    } else if s[i] == '|' {
        i
    } else {
        spec_first_bar(s, i + 1)
    }
}

/// The board-reading scan state: which `|`-separated segment and offset
/// the scan stands at, and the piece bits gathered so far.
pub struct ScanState {
    pub seg: int,
    pub off: int,
    pub p1: u64,
    pub elephants: u64,
    pub camels: u64,
    pub horses: u64,
    pub dogs: u64,
    pub cats: u64,
    pub rabbits: u64,
}

/// The empty scan state.
pub open spec fn spec_scan_init() -> ScanState {
    ScanState { seg: 0, off: 0, p1: 0, elephants: 0, camels: 0, horses: 0, dogs: 0, cats: 0, rabbits: 0 }
}

/// One character of the scan: a bar opens the next segment; inside an
/// odd segment, the characters at odd offsets are the eight cells of one
/// rank, and a piece letter there sets its square's bit.
pub open spec fn spec_scan_step(st: ScanState, ch: char) -> ScanState {
    if ch == '|' {
        ScanState { seg: st.seg + 1, off: 0, ..st }
    } else if st.seg % 2 == 1 && st.off % 2 == 1 && (st.seg - 1) / 2 < 8 && (st.off - 1) / 2 < 8 {
        let row = (st.seg - 1) / 2;
        let col = (st.off - 1) / 2;
        let bit = 1u64 << ((row * 8 + col) as u64);
        match Piece::spec_from_char(ch) {
            Some((piece, is_p1)) => ScanState {
                off: st.off + 1,
                p1: if is_p1 {
                    st.p1 | bit
                } else {
                    st.p1
                },
                elephants: if piece is Elephant {
                    st.elephants | bit
                } else {
                    st.elephants
                },
                camels: if piece is Camel {
                    st.camels | bit
                } else {
                    st.camels
                },
                horses: if piece is Horse {
                    st.horses | bit
                } else {
                    st.horses
                },
                dogs: if piece is Dog {
                    st.dogs | bit
                } else {
                    st.dogs
                },
                cats: if piece is Cat {
                    st.cats | bit
                } else {
                    st.cats
                },
                rabbits: if piece is Rabbit {
                    st.rabbits | bit
                } else {
                    st.rabbits
                },
                ..st
            },
            None => ScanState { off: st.off + 1, ..st },
        }
    } else {
        ScanState { off: st.off + 1, ..st }
    }
}

/// The scan state after the first `n` characters.
pub open spec fn spec_scan(s: Seq<char>, n: int) -> ScanState
    decreases n,
{
    if n <= 0 {
        spec_scan_init()
    } else {
        spec_scan_step(spec_scan(s, n - 1), s[n - 1])
    }
}

/// The position the board text describes: the scanned piece bits, the
/// header's move number and side (or move 2, first player, when there
/// is no header), at step zero of a fresh play-phase move.
pub open spec fn spec_parse_model(s: Seq<char>) -> StateModel {
    let st = spec_scan(s, s.len() as int);
    let pb = crate::board::spec_new_board(
        st.p1,
        st.elephants,
        st.camels,
        st.horses,
        st.dogs,
        st.cats,
        st.rabbits,
    );
    let header = spec_header(s.subrange(0, spec_first_bar(s, 0)));
    let move_number = match header {
        Some((n, _)) => n,
        None => 2,
    };
    let p1_turn = match header {
        Some((_, p1)) => p1,
        None => true,
    };
    let h = crate::zobrist::spec_full_hash(pb, p1_turn, 0);
    StateModel {
        p1_turn,
        move_number,
        phase: PhaseModel::Play(
            PlayModel {
                boards: Seq::<PieceBoardState>::empty(),
                pps: PushPullState::Free,
                initial_hash: h,
                history: seq![h],
                trapped: false,
            },
        ),
        pb,
        hash: h,
    }
}

/// Collects the characters of a string.
fn str_chars(s: &str) -> (r: Vec<char>)
    ensures
        r@ == s@,
{
    let n = s.unicode_len();
    let mut out: Vec<char> = Vec::new();
    let mut i: usize = 0;
    while i < n
        invariant
            i <= n == s@.len(),
            out@ == s@.subrange(0, i as int),
        decreases n - i,
    {
        out.push(s.get_char(i));
        i = i + 1;
        proof {
            assert(out@ =~= s@.subrange(0, i as int));
        }
    }
    proof {
        assert(s@.subrange(0, s@.len() as int) =~= s@);
    }
    out
}

/// True for the whitespace the header may start with.
fn is_ws(c: char) -> (r: bool)
    ensures
        r == spec_is_ws(c),
{
    c == ' ' || c == '\n' || c == '\t' || c == '\r'
}

/// The value of a digit character, or nothing.
fn digit_of(c: char) -> (r: Option<u64>)
    ensures
        r matches Some(d) ==> spec_digit_of(c) == Some(d as int),
        r is None <==> spec_digit_of(c) is None,
    {
    if c == '0' {
        Some(0)
    } else if c == '1' {
        Some(1)
    } else if c == '2' {
        Some(2)
    } else if c == '3' {
        Some(3)
    } else if c == '4' {
        Some(4)
    } else if c == '5' {
        Some(5)
    } else if c == '6' {
        Some(6)
    } else if c == '7' {
        Some(7)
    } else if c == '8' {
        Some(8)
    } else if c == '9' {
        Some(9)
    } else {
        None
    }
}

impl GameState {
    /// Reads a position back from its board text.  The optional header
    /// names the move number and side; the eight ranks between `|` bars
    /// name the pieces.  Fails only when the header's move number does
    /// not fit the engine's range.
    pub fn parse_board_str(s: &str) -> (r: Result<GameState, ParseError>)
        ensures
            r matches Ok(gs) ==> gs@ == spec_parse_model(s@),
            r is Err <==> (spec_header(
                s@.subrange(0, spec_first_bar(s@, 0)),
            ) matches Some((n, _)) && n > 0xFFFF_FFFF),
    {
        let chars = str_chars(s);
        let n = chars.len();
        // The header lies before the first bar.
        let mut bar: usize = 0;
        while bar < n && chars[bar] != '|'
            invariant
                bar <= n == chars@.len(),
                chars@ == s@,
                spec_first_bar(s@, 0) == spec_first_bar(s@, bar as int),
            decreases n - bar,
        {
            bar = bar + 1;
        }
        proof {
            assert(spec_first_bar(s@, bar as int) == bar as int);
        }
        let ghost seg0 = s@.subrange(0, bar as int);
        let mut i: usize = 0;
        while i < bar && is_ws(chars[i])
            invariant
                i <= bar <= n == chars@.len(),
                chars@ == s@,
                seg0 == s@.subrange(0, bar as int),
                spec_skip_ws(seg0, 0) == spec_skip_ws(seg0, i as int),
            decreases bar - i,
        {
            i = i + 1;
        }
        proof {
            assert(spec_skip_ws(seg0, i as int) == i as int);
        }
        let digits_start = i;
        let mut value: u64 = 0;
        while i < bar && matches!(digit_of(chars[i]), Some(_))
            invariant
                digits_start <= i <= bar <= n == chars@.len(),
                chars@ == s@,
                seg0 == s@.subrange(0, bar as int),
                spec_skip_digits(seg0, digits_start as int) == spec_skip_digits(seg0, i as int),
                (value <= 0xFFFF_FFFF && value == spec_digits_value(
                    seg0,
                    digits_start as int,
                    i as int,
                )) || (value == 0x1_0000_0000 && spec_digits_value(
                    seg0,
                    digits_start as int,
                    i as int,
                ) > 0xFFFF_FFFF),
            decreases bar - i,
    {
            let d = match digit_of(chars[i]) {
                Some(d) => d,
                None => 0,
            };
            proof {
                let prev = spec_digits_value(seg0, digits_start as int, i as int);
                assert(spec_digits_value(seg0, digits_start as int, i + 1) == prev * 10 + (
                match spec_digit_of(seg0[i as int]) {
                    Some(dd) => dd,
                    None => 0int,
                }));
                if prev > 0xFFFF_FFFF {
                    assert(prev * 10 + 9 > 0xFFFF_FFFF * 10);
                }
            }
            if value > 0xFFFF_FFFF || value * 10 + d > 0xFFFF_FFFF {
                value = 0x1_0000_0000;
            } else {
                value = value * 10 + d;
            }
            i = i + 1;
        }
        proof {
            assert(spec_skip_digits(seg0, i as int) == i as int);
        }
        proof {
            assert(forall|t: int| 0 <= t < bar ==> seg0[t] == s@[t]);
            assert(seg0.len() == bar as int);
            assert(spec_skip_ws(seg0, 0) == digits_start as int);
            assert(spec_skip_digits(seg0, digits_start as int) == i as int);
        }
        let mut move_number: usize = 2;
        let mut p1_turn_to_move: bool = true;
        if i > digits_start && i < bar && (chars[i] == 'g' || chars[i] == 's' || chars[i] == 'w'
            || chars[i] == 'b') {
            proof {
                assert(spec_header(seg0) matches Some((nn, pp)) && nn == spec_digits_value(
                    seg0,
                    digits_start as int,
                    i as int,
                ) && pp == (s@[i as int] != 's' && s@[i as int] != 'b'));
            }
            if value > 0xFFFF_FFFF {
                return Err(ParseError);
            }
            move_number = value as usize;
            p1_turn_to_move = chars[i] != 's' && chars[i] != 'b';
        } else {
            proof {
                assert(spec_header(seg0) is None);
            }
        }
        // The grid scan.
        let mut seg: usize = 0;
        let mut off: usize = 0;
        let mut p1_pieces: u64 = 0;
        let mut elephants: u64 = 0;
        let mut camels: u64 = 0;
        let mut horses: u64 = 0;
        let mut dogs: u64 = 0;
        let mut cats: u64 = 0;
        let mut rabbits: u64 = 0;
        let mut k: usize = 0;
        while k < n
            invariant
                k <= n == chars@.len(),
                chars@ == s@,
                seg <= k,
                off <= k,
                spec_scan(s@, k as int) == (ScanState {
                    seg: seg as int,
                    off: off as int,
                    p1: p1_pieces,
                    elephants,
                    camels,
                    horses,
                    dogs,
                    cats,
                    rabbits,
                }),
            decreases n - k,
        {
            let ch = chars[k];
            if ch == '|' {
                seg = seg + 1;
                off = 0;
            } else {
                if seg % 2 == 1 && off % 2 == 1 && (seg - 1) / 2 < 8 && (off - 1) / 2 < 8 {
                    let row = (seg - 1) / 2;
                    let col = (off - 1) / 2;
                    let bit = 1u64 << ((row * 8 + col) as u64);
                    match Piece::from_char(ch) {
                        Some((piece, is_p1)) => {
                            match piece {
                                Piece::Elephant => elephants = elephants | bit,
                                Piece::Camel => camels = camels | bit,
                                Piece::Horse => horses = horses | bit,
                                Piece::Dog => dogs = dogs | bit,
                                Piece::Cat => cats = cats | bit,
                                Piece::Rabbit => rabbits = rabbits | bit,
                            }
                            if is_p1 {
                                p1_pieces = p1_pieces | bit;
                            }
                        },
                        None => {},
                    }
                }
                off = off + 1;
            }
            k = k + 1;
        }
        let piece_board = PieceBoard::new(
            p1_pieces,
            elephants,
            camels,
            horses,
            dogs,
            cats,
            rabbits,
        );
        let hash = Zobrist::from_piece_board(piece_board.piece_board(), p1_turn_to_move, 0);
        let hash_history = List::new();
        let hash_history = hash_history.append(hash);
        let new_phase = Phase::PlayPhase(PlayPhase::initial(hash, hash_history));
        proof {
            crate::game::lemma_phase_view(new_phase);
        }
        let r = GameState::new(p1_turn_to_move, move_number, new_phase, piece_board, hash);
        proof {
            let sm = spec_parse_model(s@);
            let st = spec_scan(s@, s@.len() as int);
            assert(seg0 == s@.subrange(0, spec_first_bar(s@, 0)));
            assert(piece_board@ == crate::board::spec_new_board(
                st.p1,
                st.elephants,
                st.camels,
                st.horses,
                st.dogs,
                st.cats,
                st.rabbits,
            ));
            assert(piece_board@ == sm.pb);
            assert(p1_turn_to_move == sm.p1_turn);
            assert(move_number as int == sm.move_number);
            assert(hash.spec_hash() == crate::zobrist::spec_full_hash(sm.pb, sm.p1_turn, 0));
            assert(r@.phase->Play_0.boards =~= sm.phase->Play_0.boards);
            assert(r@.phase->Play_0.history =~= sm.phase->Play_0.history);
            assert(r@.phase->Play_0 == sm.phase->Play_0);
            assert(r@ == sm);
        }
        Ok(r)
    }
}

/// The text of the first `k` ranks.
pub open spec fn spec_rows_prefix(pb: PieceBoardState, k: int) -> Seq<char>
    decreases k,
{
    if k <= 0 {
        Seq::<char>::empty()
    } else {
        spec_rows_prefix(pb, k - 1) + seq![spec_digit_char(8 - (k - 1)), '|'] + spec_cells_from(
            pb,
            k - 1,
            0,
        )
    }
}

/// The eight-rank prefix is the whole rank text.
proof fn lemma_rows_prefix_full(pb: PieceBoardState)
    ensures
        spec_rows_prefix(pb, 8) == spec_rows_from(pb, 0),
{
    lemma_rows_glue(pb, 0);
    assert(spec_rows_prefix(pb, 8) =~= spec_rows_from(pb, 0));
}

/// Rank text from a row equals the prefixes stitched together.
proof fn lemma_rows_glue(pb: PieceBoardState, k: int)
    requires
        0 <= k <= 8,
    ensures
        spec_rows_prefix(pb, 8) == spec_rows_prefix(pb, k) + spec_rows_from(pb, k),
    decreases 8 - k,
{
    if k == 8 {
        assert(spec_rows_from(pb, 8) =~= Seq::<char>::empty());
        assert(spec_rows_prefix(pb, 8) =~= spec_rows_prefix(pb, 8) + spec_rows_from(pb, 8));
    } else {
        lemma_rows_glue(pb, k + 1);
        assert(spec_rows_prefix(pb, k + 1) =~= spec_rows_prefix(pb, k) + seq![spec_digit_char(
            8 - k,
        ), '|'] + spec_cells_from(pb, k, 0));
        assert(spec_rows_prefix(pb, k) + spec_rows_from(pb, k) =~= spec_rows_prefix(pb, k + 1)
            + spec_rows_from(pb, k + 1));
    }
}

} // verus!
