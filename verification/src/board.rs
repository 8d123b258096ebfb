//! The piece boards: one 64-bit word per animal kind plus an ownership
//! mask, and the branchless queries derived from them (support, traps,
//! threats, freezing).

use vstd::prelude::*;
use crate::bits::{
    BOTTOM_ROW_MASK, LAST_P1_PLACEMENT_MASK, LEFT_COLUMN_MASK, P1_PLACEMENT_MASK,
    P2_PLACEMENT_MASK, RIGHT_COLUMN_MASK, TOP_ROW_MASK, TRAP_MASK,
};
use crate::action::Action;
use crate::direction::Direction;
use crate::piece::Piece;
use crate::square::Square;

verus! {

/// A set of bitboards representing the pieces on the board.
/// Bits run left to right, top to bottom: bit 0 is a8, the top-left
/// square, and bit 63 is h1, the bottom-right.
#[derive(Clone, Copy, Debug, PartialEq, Eq, Structural)]
pub struct PieceBoardState {
    pub p1_pieces: u64,
    pub all_pieces: u64,
    pub elephants: u64,
    pub camels: u64,
    pub horses: u64,
    pub dogs: u64,
    pub cats: u64,
    pub rabbits: u64,
}

/// Shifts a whole board one square in a direction, letting bits fall off
/// the board's edge into the neighbouring row or column.  Callers mask the
/// edge first when that wrapping would be wrong.
pub open spec fn spec_shift_raw(bits: u64, direction: Direction) -> u64 {
    match direction {
        Direction::Up => bits >> 8u64,
        Direction::Right => bits << 1u64,
        Direction::Down => bits << 8u64,
        Direction::Left => bits >> 1u64,
    }
}

/// The edge rank or file that a shift in `direction` would carry off the
/// board.
pub open spec fn spec_edge_mask(direction: Direction) -> u64 {
    match direction {
        Direction::Up => TOP_ROW_MASK,
        Direction::Right => RIGHT_COLUMN_MASK,
        Direction::Down => BOTTOM_ROW_MASK,
        Direction::Left => LEFT_COLUMN_MASK,
    }
}

/// Shifts a board of pieces one square in a direction, dropping the pieces
/// that stand on the edge the shift runs over.
pub open spec fn spec_shift_pieces(bits: u64, direction: Direction) -> u64 {
    spec_shift_raw(bits & !spec_edge_mask(direction), direction)
}

/// Shifts a board of pieces one square against a direction.
pub open spec fn spec_shift_pieces_opp(bits: u64, direction: Direction) -> u64 {
    spec_shift_pieces(bits, direction.spec_opposite())
}

/// Raw single-square shift in a direction.
pub fn shift_in_direction(bits: u64, direction: &Direction) -> (r: u64)
    ensures
        r == spec_shift_raw(bits, *direction),
{
    match direction {
        Direction::Up => bits >> 8u64,
        Direction::Right => bits << 1u64,
        Direction::Down => bits << 8u64,
        Direction::Left => bits >> 1u64,
    }
}

/// Edge-safe shift of many pieces in a direction.
pub fn shift_pieces_in_direction(bits: u64, direction: &Direction) -> (r: u64)
    ensures
        r == spec_shift_pieces(bits, *direction),
{
    match direction {
        Direction::Up => (bits & !TOP_ROW_MASK) >> 8u64,
        Direction::Right => (bits & !RIGHT_COLUMN_MASK) << 1u64,
        Direction::Down => (bits & !BOTTOM_ROW_MASK) << 8u64,
        Direction::Left => (bits & !LEFT_COLUMN_MASK) >> 1u64,
    }
}

/// Edge-safe shift of many pieces against a direction.
pub fn shift_pieces_in_opp_direction(bits: u64, direction: &Direction) -> (r: u64)
    ensures
        r == spec_shift_pieces_opp(bits, *direction),
{
    match direction {
        Direction::Up => (bits & !BOTTOM_ROW_MASK) << 8u64,
        Direction::Right => (bits & !LEFT_COLUMN_MASK) >> 1u64,
        Direction::Down => (bits & !TOP_ROW_MASK) >> 8u64,
        Direction::Left => (bits & !RIGHT_COLUMN_MASK) << 1u64,
    }
}

/// Moves the piece sitting on `source_square_bit` (if any) one square in a
/// direction, leaving every other bit of the board alone.
pub open spec fn spec_shift_piece(board: u64, source_square_bit: u64, direction: Direction) -> u64 {
    spec_shift_raw(board & source_square_bit, direction) | (board & !source_square_bit)
}

/// Moves the bit at `source_square_bit` of one board one square in a
/// direction.
pub fn shift_piece_in_direction(piece_board: u64, source_square_bit: u64, direction: &Direction) -> (r:
    u64)
    ensures
        r == spec_shift_piece(piece_board, source_square_bit, *direction),
{
    shift_in_direction(piece_board & source_square_bit, direction) | (piece_board
        & !source_square_bit)
}

/// The squares a set of pieces reaches with one orthogonal step.
pub open spec fn spec_influence(piece_board: u64) -> u64 {
    spec_shift_pieces(piece_board, Direction::Up) | spec_shift_pieces(piece_board, Direction::Right)
        | spec_shift_pieces(piece_board, Direction::Down) | spec_shift_pieces(
        piece_board,
        Direction::Left,
    )
}

/// The union of the four edge-safe shifts of a board: every square the
/// board's pieces influence.
pub fn influenced_squares(piece_board: u64) -> (r: u64)
    ensures
        r == spec_influence(piece_board),
{
    shift_pieces_in_direction(piece_board, &Direction::Up) | shift_pieces_in_direction(
        piece_board,
        &Direction::Right,
    ) | shift_pieces_in_direction(piece_board, &Direction::Down) | shift_pieces_in_direction(
        piece_board,
        &Direction::Left,
    )
}

/// The pieces of one side that have an orthogonally adjacent friend.
pub open spec fn spec_supported(piece_bits: u64) -> u64 {
    piece_bits & spec_influence(piece_bits)
}

/// The pieces of a single side's board that have a friendly neighbour.
pub fn supported_pieces(piece_bits: u64) -> (r: u64)
    ensures
        r == spec_supported(piece_bits),
{
    let up = piece_bits & shift_pieces_in_direction(piece_bits, &Direction::Up);
    let right = piece_bits & shift_pieces_in_direction(piece_bits, &Direction::Right);
    let down = piece_bits & shift_pieces_in_direction(piece_bits, &Direction::Down);
    let left = piece_bits & shift_pieces_in_direction(piece_bits, &Direction::Left);
    let r = up | right | down | left;
    proof {
        lemma_and_or_distrib(
            piece_bits,
            spec_shift_pieces(piece_bits, Direction::Up),
            spec_shift_pieces(piece_bits, Direction::Right),
            spec_shift_pieces(piece_bits, Direction::Down),
            spec_shift_pieces(piece_bits, Direction::Left),
        );
    }
    r
}

/// `&` distributes over a four-way `|`.
proof fn lemma_and_or_distrib(m: u64, a: u64, b: u64, c: u64, d: u64)
    by (bit_vector)
    ensures
        (m & a) | (m & b) | (m & c) | (m & d) == m & (a | b | c | d),
{
}

/// The second player's piece mask.
pub open spec fn spec_p2_pieces(pb: PieceBoardState) -> u64 {
    !pb.p1_pieces & pb.all_pieces
}

/// The pieces of either side that have a friendly neighbour.
pub open spec fn spec_supported_both(pb: PieceBoardState) -> u64 {
    spec_supported(pb.p1_pieces) | spec_supported(spec_p2_pieces(pb))
}

/// Pieces of either side with no friendly neighbour.
pub open spec fn spec_unsupported_both(pb: PieceBoardState) -> u64 {
    pb.all_pieces & !spec_supported_both(pb)
}

/// The pieces of either side that have a friendly orthogonal neighbour.
pub fn both_player_supported_pieces(pb: &PieceBoardState) -> (r: u64)
    ensures
        r == spec_supported_both(*pb),
{
    let p1_pieces = pb.p1_pieces;
    let p2_pieces = pb.all_pieces & !p1_pieces;
    proof {
        crate::bits::lemma_word_trivia(pb.all_pieces, !p1_pieces, 0);
    }
    supported_pieces(p1_pieces) | supported_pieces(p2_pieces)
}

/// The pieces of either side that have no friendly orthogonal neighbour.
pub fn both_player_unsupported_piece_bits(pb: &PieceBoardState) -> (r: u64)
    ensures
        r == spec_unsupported_both(*pb),
{
    pb.all_pieces & !both_player_supported_pieces(pb)
}

/// The pieces that stand on a trap square with no friendly supporter: the
/// set of bits a trap sweep removes.
pub open spec fn spec_trapped_bits(pb: PieceBoardState) -> u64 {
    spec_unsupported_both(pb) & TRAP_MASK
}

/// True when any piece stands on a trap square.
pub fn animal_is_on_trap(pb: &PieceBoardState) -> (r: bool)
    ensures
        r == ((pb.all_pieces & TRAP_MASK) != 0),
{
    (pb.all_pieces & TRAP_MASK) != 0
}

/// The piece type standing on a single-bit board known to hold a piece.
/// The type boards are pairwise disjoint, so the first match answers.
pub open spec fn spec_piece_at(square_bit: u64, pb: PieceBoardState) -> Piece {
    if pb.rabbits & square_bit != 0 {
        Piece::Rabbit
    } else if pb.elephants & square_bit != 0 {
        Piece::Elephant
    } else if pb.camels & square_bit != 0 {
        Piece::Camel
    } else if pb.horses & square_bit != 0 {
        Piece::Horse
    } else if pb.dogs & square_bit != 0 {
        Piece::Dog
    } else {
        Piece::Cat
    }
}

/// The piece type at a square bit that lies in `all_pieces`.
pub fn piece_type_at_bit(square_bit: u64, pb: &PieceBoardState) -> (r: Piece)
    ensures
        r == spec_piece_at(square_bit, *pb),
{
    if pb.rabbits & square_bit != 0 {
        Piece::Rabbit
    } else if pb.elephants & square_bit != 0 {
        Piece::Elephant
    } else if pb.camels & square_bit != 0 {
        Piece::Camel
    } else if pb.horses & square_bit != 0 {
        Piece::Horse
    } else if pb.dogs & square_bit != 0 {
        Piece::Dog
    } else {
        Piece::Cat
    }
}

impl PieceBoardState {
    /// The board for one piece type, both sides together.
    pub open spec fn spec_bits_by_piece_type(self, piece: Piece) -> u64 {
        match piece {
            Piece::Elephant => self.elephants,
            Piece::Camel => self.camels,
            Piece::Horse => self.horses,
            Piece::Dog => self.dogs,
            Piece::Cat => self.cats,
            Piece::Rabbit => self.rabbits,
        }
    }

    /// One side's piece mask.
    pub open spec fn spec_player_piece_mask(self, p1_pieces: bool) -> u64 {
        if p1_pieces {
            self.p1_pieces
        } else {
            !self.p1_pieces & self.all_pieces
        }
    }

    /// One side's board for one piece type.
    pub open spec fn spec_bits_for_piece(self, piece: Piece, p1_pieces: bool) -> u64 {
        self.spec_bits_by_piece_type(piece) & self.spec_player_piece_mask(p1_pieces)
    }

    /// The basic shape every board must have: the six type boards are
    /// pairwise disjoint, their union is `all_pieces`, and the ownership
    /// mask lies inside `all_pieces`.
    pub open spec fn disjoint_wf(self) -> bool {
        &&& self.all_pieces == self.elephants | self.camels | self.horses | self.dogs | self.cats
            | self.rabbits
        &&& self.elephants & self.camels == 0
        &&& self.elephants & self.horses == 0
        &&& self.elephants & self.dogs == 0
        &&& self.elephants & self.cats == 0
        &&& self.elephants & self.rabbits == 0
        &&& self.camels & self.horses == 0
        &&& self.camels & self.dogs == 0
        &&& self.camels & self.cats == 0
        &&& self.camels & self.rabbits == 0
        &&& self.horses & self.dogs == 0
        &&& self.horses & self.cats == 0
        &&& self.horses & self.rabbits == 0
        &&& self.dogs & self.cats == 0
        &&& self.dogs & self.rabbits == 0
        &&& self.cats & self.rabbits == 0
        &&& self.p1_pieces & !self.all_pieces == 0
    }

    /// A board as it can be reached in play: well shaped, and with no
    /// unsupported piece left on a trap square.
    pub open spec fn wf(self) -> bool {
        &&& self.disjoint_wf()
        &&& spec_trapped_bits(self) == 0
    }

    /// The bits for a specific piece type for a specific player.
    pub fn bits_for_piece(&self, piece: Piece, p1_pieces: bool) -> (r: u64)
        ensures
            r == self.spec_bits_for_piece(piece, p1_pieces),
    {
        let player_piece_mask = if p1_pieces {
            self.p1_pieces
        } else {
            !self.p1_pieces & self.all_pieces
        };
        self.bits_by_piece_type(piece) & player_piece_mask
    }

    /// A bit board where each bit represents a piece of the given player.
    pub fn player_piece_mask(&self, p1_pieces: bool) -> (r: u64)
        ensures
            r == self.spec_player_piece_mask(p1_pieces),
    {
        if p1_pieces {
            self.p1_pieces
        } else {
            !self.p1_pieces & self.all_pieces
        }
    }

    /// A bit board for the given piece type, both players together.
    pub fn bits_by_piece_type(&self, piece: Piece) -> (r: u64)
        ensures
            r == self.spec_bits_by_piece_type(piece),
    {
        match piece {
            Piece::Elephant => self.elephants,
            Piece::Camel => self.camels,
            Piece::Horse => self.horses,
            Piece::Dog => self.dogs,
            Piece::Cat => self.cats,
            Piece::Rabbit => self.rabbits,
        }
    }

    /// The square where the next setup piece lands: the lowest empty
    /// square of the active half board.
    pub open spec fn spec_placement_bit(self) -> u64 {
        let placement_mask = if self.p1_pieces & P1_PLACEMENT_MASK == P1_PLACEMENT_MASK {
            P2_PLACEMENT_MASK
        } else {
            P1_PLACEMENT_MASK
        };
        let squares_to_place = !self.all_pieces & placement_mask;
        1u64 << vstd::std_specs::bits::u64_trailing_zeros(squares_to_place)
    }

    /// A bit naming the square where the next setup placement lands.
    /// Only meaningful during the setup phase, while the active half
    /// board still has an empty square.
    pub fn placement_bit(&self) -> (r: u64)
        requires
            self.p1_pieces & P1_PLACEMENT_MASK == P1_PLACEMENT_MASK ==> !self.all_pieces
                & P2_PLACEMENT_MASK != 0,
            self.p1_pieces & P1_PLACEMENT_MASK != P1_PLACEMENT_MASK ==> !self.all_pieces
                & P1_PLACEMENT_MASK != 0,
        ensures
            r == self.spec_placement_bit(),
            crate::bits::is_single_bit(r),
            self.p1_pieces & P1_PLACEMENT_MASK == P1_PLACEMENT_MASK ==> r & (!self.all_pieces
                & P2_PLACEMENT_MASK) == r && ((r - 1) as u64) & (!self.all_pieces
                & P2_PLACEMENT_MASK) == 0,
            self.p1_pieces & P1_PLACEMENT_MASK != P1_PLACEMENT_MASK ==> r & (!self.all_pieces
                & P1_PLACEMENT_MASK) == r && ((r - 1) as u64) & (!self.all_pieces
                & P1_PLACEMENT_MASK) == 0,
            r & self.all_pieces == 0,
    {
        let placement_mask = if self.p1_pieces & P1_PLACEMENT_MASK == P1_PLACEMENT_MASK {
            P2_PLACEMENT_MASK
        } else {
            P1_PLACEMENT_MASK
        };
        let squares_to_place = !self.all_pieces & placement_mask;
        let r = crate::bits::first_set_bit(squares_to_place);
        proof {
            crate::bits::lemma_word_trivia(r, self.all_pieces, placement_mask);
        }
        r
    }

    /// The bits of the pieces a trap sweep would remove right now: pieces
    /// on a trap square with no friendly supporter.
    pub fn trapped_piece_bits(&self) -> (r: u64)
        ensures
            r == spec_trapped_bits(*self),
    {
        let on_trap = animal_is_on_trap(self);
        if on_trap {
            let unsupported_piece_bits = both_player_unsupported_piece_bits(self);
            unsupported_piece_bits & TRAP_MASK
        } else {
            proof {
                Self::lemma_no_trap_no_trapped(self.all_pieces, spec_supported_both(*self));
            }
            0
        }
    }

    /// With no piece on a trap square, the sweep removes nothing.
    proof fn lemma_no_trap_no_trapped(all: u64, sup: u64)
        by (bit_vector)
        requires
            all & 0x0000_2400_0024_0000 == 0,
        ensures
            (all & !sup) & 0x0000_2400_0024_0000 == 0,
    {
    }

    /// The board with the bits of `t` removed from every field.
    pub open spec fn spec_clear(self, t: u64) -> PieceBoardState {
        PieceBoardState {
            p1_pieces: self.p1_pieces & !t,
            all_pieces: self.all_pieces & !t,
            elephants: self.elephants & !t,
            camels: self.camels & !t,
            horses: self.horses & !t,
            dogs: self.dogs & !t,
            cats: self.cats & !t,
            rabbits: self.rabbits & !t,
        }
    }

    /// The board after the bit at `src` moves one square in a direction,
    /// in every field at once.
    pub open spec fn spec_move_all(self, src: u64, direction: Direction) -> PieceBoardState {
        PieceBoardState {
            p1_pieces: spec_shift_piece(self.p1_pieces, src, direction),
            all_pieces: spec_shift_piece(self.all_pieces, src, direction),
            elephants: spec_shift_piece(self.elephants, src, direction),
            camels: spec_shift_piece(self.camels, src, direction),
            horses: spec_shift_piece(self.horses, src, direction),
            dogs: spec_shift_piece(self.dogs, src, direction),
            cats: spec_shift_piece(self.cats, src, direction),
            rabbits: spec_shift_piece(self.rabbits, src, direction),
        }
    }

    /// The board after the bit at `src` moves one square and the trap
    /// sweep then removes what stands unsupported on a trap.
    pub open spec fn spec_after_move(self, src: u64, direction: Direction) -> PieceBoardState {
        let moved = self.spec_move_all(src, direction);
        moved.spec_clear(spec_trapped_bits(moved))
    }

    /// The piece type on a square, if the square is occupied.
    pub fn piece_type_at_square(&self, square: &Square) -> (r: Option<Piece>)
        requires
            square.wf(),
        ensures
            r == (if (1u64 << square.0) & self.all_pieces != 0 {
                Some(spec_piece_at(1u64 << square.0, *self))
            } else {
                None::<Piece>
            }),
    {
        let square_bit = square.as_bit_board();
        if square_bit & self.all_pieces != 0 {
            Some(piece_type_at_bit(square_bit, self))
        } else {
            None
        }
    }
}

/// Support written out over plain words, for the bit-vector prover.
pub open spec fn sup_u(x: u64) -> u64 {
    x & (((x & !0x0000_0000_0000_00FFu64) >> 8u64) | ((x & !0x8080_8080_8080_8080u64) << 1u64) | ((
    x & !0xFF00_0000_0000_0000u64) << 8u64) | ((x & !0x0101_0101_0101_0101u64) >> 1u64))
}

/// The trap-sweep removal set written out over plain words.
pub open spec fn trapped_u(p1: u64, all: u64) -> u64 {
    (all & !(sup_u(p1) | sup_u(all & !p1))) & 0x0000_2400_0024_0000u64
}

/// The plain-word support form agrees with the structured one.
pub proof fn lemma_sup_u_eq(x: u64)
    ensures
        spec_supported(x) == sup_u(x),
{
    assert(spec_shift_pieces(x, Direction::Up) == (x & !0x0000_0000_0000_00FFu64) >> 8u64);
    assert(spec_shift_pieces(x, Direction::Right) == (x & !0x8080_8080_8080_8080u64) << 1u64);
    assert(spec_shift_pieces(x, Direction::Down) == (x & !0xFF00_0000_0000_0000u64) << 8u64);
    assert(spec_shift_pieces(x, Direction::Left) == (x & !0x0101_0101_0101_0101u64) >> 1u64);
}

/// The plain-word form agrees with the structured one.
pub proof fn lemma_trapped_u_eq(pb: PieceBoardState)
    ensures
        spec_trapped_bits(pb) == trapped_u(pb.p1_pieces, pb.all_pieces),
{
    lemma_sup_u_eq(pb.p1_pieces);
    lemma_sup_u_eq(pb.all_pieces & !pb.p1_pieces);
    crate::bits::lemma_word_trivia(pb.all_pieces, !pb.p1_pieces, 0);
    assert(spec_p2_pieces(pb) == pb.all_pieces & !pb.p1_pieces);
}

/// One trap sweep finishes the job: no trap square is a neighbour of
/// another, so removing the unsupported trap sitters cannot leave a new
/// unsupported piece on a trap.
pub proof fn lemma_sweep_complete(p1: u64, all: u64)
    by (bit_vector)
    ensures
        trapped_u(
            p1 & !trapped_u(p1, all),
            all & !trapped_u(p1, all),
        ) == 0,
{
}

/// Removing one common set of bits from every field keeps the boards well
/// shaped.
proof fn lemma_clear_wf(e: u64, m: u64, h: u64, d: u64, c: u64, r: u64, p1: u64, all: u64, t: u64)
    by (bit_vector)
    requires
        all == e | m | h | d | c | r,
        e & m == 0,
        e & h == 0,
        e & d == 0,
        e & c == 0,
        e & r == 0,
        m & h == 0,
        m & d == 0,
        m & c == 0,
        m & r == 0,
        h & d == 0,
        h & c == 0,
        h & r == 0,
        d & c == 0,
        d & r == 0,
        c & r == 0,
        p1 & !all == 0,
    ensures
        all & !t == (e & !t) | (m & !t) | (h & !t) | (d & !t) | (c & !t) | (r & !t),
        (e & !t) & (m & !t) == 0,
        (e & !t) & (h & !t) == 0,
        (e & !t) & (d & !t) == 0,
        (e & !t) & (c & !t) == 0,
        (e & !t) & (r & !t) == 0,
        (m & !t) & (h & !t) == 0,
        (m & !t) & (d & !t) == 0,
        (m & !t) & (c & !t) == 0,
        (m & !t) & (r & !t) == 0,
        (h & !t) & (d & !t) == 0,
        (h & !t) & (c & !t) == 0,
        (h & !t) & (r & !t) == 0,
        (d & !t) & (c & !t) == 0,
        (d & !t) & (r & !t) == 0,
        (c & !t) & (r & !t) == 0,
        (p1 & !t) & !(all & !t) == 0,
{
}

/// How a one-bit move by a rightward word shift runs through boards:
/// it distributes over unions, keeps disjoint boards disjoint when the
/// landing square is free of both, and preserves containment.
proof fn lemma_mv_facts_shr(x: u64, y: u64, src: u64, k: u64)
    by (bit_vector)
    ensures
        (((x | y) & src) >> k) | ((x | y) & !src) == ((((x & src) >> k) | (x & !src)) | (((y & src)
            >> k) | (y & !src))),
        (x & y == 0 && src & ((src - 1) as u64) == 0 && (src >> k) & x == 0 && (src >> k) & y == 0)
            ==> (((x & src) >> k) | (x & !src)) & (((y & src) >> k) | (y & !src)) == 0,
        (x & !y == 0 && src & ((src - 1) as u64) == 0 && (src >> k) & y == 0) ==> (((x & src) >> k)
            | (x & !src)) & !(((y & src) >> k) | (y & !src)) == 0,
{
}

/// How a one-bit move by a leftward word shift runs through boards.
proof fn lemma_mv_facts_shl(x: u64, y: u64, src: u64, k: u64)
    by (bit_vector)
    ensures
        (((x | y) & src) << k) | ((x | y) & !src) == ((((x & src) << k) | (x & !src)) | (((y & src)
            << k) | (y & !src))),
        (x & y == 0 && src & ((src - 1) as u64) == 0 && (src << k) & x == 0 && (src << k) & y == 0)
            ==> (((x & src) << k) | (x & !src)) & (((y & src) << k) | (y & !src)) == 0,
        (x & !y == 0 && src & ((src - 1) as u64) == 0 && (src << k) & y == 0) ==> (((x & src) << k)
            | (x & !src)) & !(((y & src) << k) | (y & !src)) == 0,
{
}

/// A one-bit move to an empty landing square keeps the boards well shaped.
pub proof fn lemma_move_all_wf(pb: PieceBoardState, src: u64, direction: Direction)
    requires
        pb.disjoint_wf(),
        crate::bits::is_single_bit(src),
        spec_shift_raw(src, direction) != 0,
        spec_shift_raw(src, direction) & pb.all_pieces == 0,
    ensures
        pb.spec_move_all(src, direction).disjoint_wf(),
{
    let e = pb.elephants;
    let m = pb.camels;
    let h = pb.horses;
    let d = pb.dogs;
    let c = pb.cats;
    let r = pb.rabbits;
    let p1 = pb.p1_pieces;
    let all = pb.all_pieces;
    let is_shr = direction == Direction::Up || direction == Direction::Left;
    let k: u64 = if direction == Direction::Up || direction == Direction::Down {
        8
    } else {
        1
    };
    lemma_union_facts(e, m, h, d, c, r, 0);
    lemma_dst_free(e, m, h, d, c, r, p1, all, spec_shift_raw(src, direction));
    if is_shr {
        assert(spec_shift_raw(src, direction) == src >> k);
        lemma_mv_facts_shr(e, m, src, k);
        lemma_mv_facts_shr(e | m, h, src, k);
        lemma_mv_facts_shr(e | m | h, d, src, k);
        lemma_mv_facts_shr(e | m | h | d, c, src, k);
        lemma_mv_facts_shr(e | m | h | d | c, r, src, k);
        lemma_mv_facts_shr(e, h, src, k);
        lemma_mv_facts_shr(e, d, src, k);
        lemma_mv_facts_shr(e, c, src, k);
        lemma_mv_facts_shr(e, r, src, k);
        lemma_mv_facts_shr(m, h, src, k);
        lemma_mv_facts_shr(m, d, src, k);
        lemma_mv_facts_shr(m, c, src, k);
        lemma_mv_facts_shr(m, r, src, k);
        lemma_mv_facts_shr(h, d, src, k);
        lemma_mv_facts_shr(h, c, src, k);
        lemma_mv_facts_shr(h, r, src, k);
        lemma_mv_facts_shr(d, c, src, k);
        lemma_mv_facts_shr(d, r, src, k);
        lemma_mv_facts_shr(c, r, src, k);
        lemma_mv_facts_shr(p1, all, src, k);
    } else {
        assert(spec_shift_raw(src, direction) == src << k);
        lemma_mv_facts_shl(e, m, src, k);
        lemma_mv_facts_shl(e | m, h, src, k);
        lemma_mv_facts_shl(e | m | h, d, src, k);
        lemma_mv_facts_shl(e | m | h | d, c, src, k);
        lemma_mv_facts_shl(e | m | h | d | c, r, src, k);
        lemma_mv_facts_shl(e, h, src, k);
        lemma_mv_facts_shl(e, d, src, k);
        lemma_mv_facts_shl(e, c, src, k);
        lemma_mv_facts_shl(e, r, src, k);
        lemma_mv_facts_shl(m, h, src, k);
        lemma_mv_facts_shl(m, d, src, k);
        lemma_mv_facts_shl(m, c, src, k);
        lemma_mv_facts_shl(m, r, src, k);
        lemma_mv_facts_shl(h, d, src, k);
        lemma_mv_facts_shl(h, c, src, k);
        lemma_mv_facts_shl(h, r, src, k);
        lemma_mv_facts_shl(d, c, src, k);
        lemma_mv_facts_shl(d, r, src, k);
        lemma_mv_facts_shl(c, r, src, k);
        lemma_mv_facts_shl(p1, all, src, k);
    }
}

/// Clearing a removal set keeps the boards well shaped.
pub proof fn lemma_clear_all_wf(pb: PieceBoardState, t: u64)
    requires
        pb.disjoint_wf(),
    ensures
        pb.spec_clear(t).disjoint_wf(),
{
    lemma_clear_wf(
        pb.elephants,
        pb.camels,
        pb.horses,
        pb.dogs,
        pb.cats,
        pb.rabbits,
        pb.p1_pieces,
        pb.all_pieces,
        t,
    );
}

/// After a one-bit move to an empty square and the trap sweep, the board
/// is again a board reachable in play: well shaped with clean traps.
pub proof fn lemma_after_move_wf(pb: PieceBoardState, src: u64, direction: Direction)
    requires
        pb.disjoint_wf(),
        crate::bits::is_single_bit(src),
        spec_shift_raw(src, direction) != 0,
        spec_shift_raw(src, direction) & pb.all_pieces == 0,
    ensures
        pb.spec_after_move(src, direction).wf(),
{
    let moved = pb.spec_move_all(src, direction);
    lemma_move_all_wf(pb, src, direction);
    let t = spec_trapped_bits(moved);
    lemma_clear_all_wf(moved, t);
    lemma_trapped_u_eq(moved);
    lemma_trapped_u_eq(moved.spec_clear(t));
    lemma_sweep_complete(moved.p1_pieces, moved.all_pieces);
}

/// The piece boards bundled as a single value.
#[derive(Clone, Copy, Debug)]
pub struct PieceBoard(pub(crate) PieceBoardState);

impl View for PieceBoard {
    type V = PieceBoardState;

    closed spec fn view(&self) -> PieceBoardState {
        self.0
    }
}

/// The empty board.
pub open spec fn spec_empty_board() -> PieceBoardState {
    PieceBoardState {
        p1_pieces: 0,
        all_pieces: 0,
        elephants: 0,
        camels: 0,
        horses: 0,
        dogs: 0,
        cats: 0,
        rabbits: 0,
    }
}

/// The board assembled from per-type bitboards, with `all_pieces` derived
/// as their union.
pub open spec fn spec_new_board(
    p1_pieces: u64,
    elephants: u64,
    camels: u64,
    horses: u64,
    dogs: u64,
    cats: u64,
    rabbits: u64,
) -> PieceBoardState {
    PieceBoardState {
        p1_pieces,
        all_pieces: elephants | camels | horses | dogs | cats | rabbits,
        elephants,
        camels,
        horses,
        dogs,
        cats,
        rabbits,
    }
}

/// The board after a piece of the given kind is set down on the square
/// bit `bit` for the given owner; `all_pieces` is derived anew.
pub open spec fn spec_place_board(
    pb: PieceBoardState,
    piece: Piece,
    is_p1: bool,
    bit: u64,
) -> PieceBoardState {
    spec_new_board(
        pb.p1_pieces | (if is_p1 {
            bit
        } else {
            0u64
        }),
        if piece is Elephant {
            pb.elephants | bit
        } else {
            pb.elephants
        },
        if piece is Camel {
            pb.camels | bit
        } else {
            pb.camels
        },
        if piece is Horse {
            pb.horses | bit
        } else {
            pb.horses
        },
        if piece is Dog {
            pb.dogs | bit
        } else {
            pb.dogs
        },
        if piece is Cat {
            pb.cats | bit
        } else {
            pb.cats
        },
        if piece is Rabbit {
            pb.rabbits | bit
        } else {
            pb.rabbits
        },
    )
}

/// A fresh bit joins one side of a disjoint pair without disturbing it,
/// and a contained board stays contained once the whole gains the bit.
proof fn lemma_fresh_bit_pair(x: u64, y: u64, bit: u64)
    by (bit_vector)
    ensures
        (x & y == 0 && bit & x == 0 && bit & y == 0) ==> ((x | bit) & y == 0 && x & (y | bit)
            == 0),
        x & !y == 0 ==> ((x | bit) & !(y | bit) == 0 && x & !(y | bit) == 0),
{
}

/// The facts of a six-way union: every board lies inside it, and a bit
/// inserted into any one board joins the whole.
pub(crate) proof fn lemma_union_facts(e: u64, m: u64, h: u64, d: u64, c: u64, r: u64, bit: u64)
    by (bit_vector)
    ensures
        e & !(e | m | h | d | c | r) == 0,
        m & !(e | m | h | d | c | r) == 0,
        h & !(e | m | h | d | c | r) == 0,
        d & !(e | m | h | d | c | r) == 0,
        c & !(e | m | h | d | c | r) == 0,
        r & !(e | m | h | d | c | r) == 0,
        (e | bit) | m | h | d | c | r == (e | m | h | d | c | r) | bit,
        e | (m | bit) | h | d | c | r == (e | m | h | d | c | r) | bit,
        e | m | (h | bit) | d | c | r == (e | m | h | d | c | r) | bit,
        e | m | h | (d | bit) | c | r == (e | m | h | d | c | r) | bit,
        e | m | h | d | (c | bit) | r == (e | m | h | d | c | r) | bit,
        e | m | h | d | c | (r | bit) == (e | m | h | d | c | r) | bit,
{
}

/// A square empty of every piece is empty of each board.
pub(crate) proof fn lemma_dst_free(
    e: u64,
    m: u64,
    h: u64,
    d: u64,
    c: u64,
    r: u64,
    p1: u64,
    all: u64,
    dst: u64,
)
    by (bit_vector)
    requires
        all == e | m | h | d | c | r,
        p1 & !all == 0,
        dst & all == 0,
    ensures
        dst & e == 0,
        dst & m == 0,
        dst & h == 0,
        dst & d == 0,
        dst & c == 0,
        dst & r == 0,
        dst & p1 == 0,
{
}

/// Setting a piece down on an empty square keeps the boards well shaped,
/// and grows `all_pieces` by exactly that square's bit.
pub proof fn lemma_place_board_wf(pb: PieceBoardState, piece: Piece, is_p1: bool, bit: u64)
    requires
        pb.disjoint_wf(),
        bit & pb.all_pieces == 0,
    ensures
        spec_place_board(pb, piece, is_p1, bit).disjoint_wf(),
        spec_place_board(pb, piece, is_p1, bit).all_pieces == pb.all_pieces | bit,
        spec_place_board(pb, piece, is_p1, bit).p1_pieces == pb.p1_pieces | (if is_p1 {
            bit
        } else {
            0u64
        }),
{
    let e = pb.elephants;
    let m = pb.camels;
    let h = pb.horses;
    let d = pb.dogs;
    let c = pb.cats;
    let r = pb.rabbits;
    let all = pb.all_pieces;
    lemma_union_facts(e, m, h, d, c, r, bit);
    lemma_dst_free(e, m, h, d, c, r, pb.p1_pieces, all, bit);
    match piece {
        Piece::Elephant => {
            lemma_fresh_bit_pair(e, m, bit);
            lemma_fresh_bit_pair(e, h, bit);
            lemma_fresh_bit_pair(e, d, bit);
            lemma_fresh_bit_pair(e, c, bit);
            lemma_fresh_bit_pair(e, r, bit);
        },
        Piece::Camel => {
            lemma_fresh_bit_pair(e, m, bit);
            lemma_fresh_bit_pair(m, h, bit);
            lemma_fresh_bit_pair(m, d, bit);
            lemma_fresh_bit_pair(m, c, bit);
            lemma_fresh_bit_pair(m, r, bit);
        },
        Piece::Horse => {
            lemma_fresh_bit_pair(e, h, bit);
            lemma_fresh_bit_pair(m, h, bit);
            lemma_fresh_bit_pair(h, d, bit);
            lemma_fresh_bit_pair(h, c, bit);
            lemma_fresh_bit_pair(h, r, bit);
        },
        Piece::Dog => {
            lemma_fresh_bit_pair(e, d, bit);
            lemma_fresh_bit_pair(m, d, bit);
            lemma_fresh_bit_pair(h, d, bit);
            lemma_fresh_bit_pair(d, c, bit);
            lemma_fresh_bit_pair(d, r, bit);
        },
        Piece::Cat => {
            lemma_fresh_bit_pair(e, c, bit);
            lemma_fresh_bit_pair(m, c, bit);
            lemma_fresh_bit_pair(h, c, bit);
            lemma_fresh_bit_pair(d, c, bit);
            lemma_fresh_bit_pair(c, r, bit);
        },
        Piece::Rabbit => {
            lemma_fresh_bit_pair(e, r, bit);
            lemma_fresh_bit_pair(m, r, bit);
            lemma_fresh_bit_pair(h, r, bit);
            lemma_fresh_bit_pair(d, r, bit);
            lemma_fresh_bit_pair(c, r, bit);
        },
    }
    lemma_fresh_bit_pair(pb.p1_pieces, all, bit);
    if !is_p1 {
        crate::bits::lemma_word_trivia(pb.p1_pieces, 0, 0);
    }
}

/// A board confined to the two setup half-boards has no piece on a trap
/// square, so its trap sweep removes nothing.
pub proof fn lemma_setup_rows_no_traps(pb: PieceBoardState)
    requires
        pb.all_pieces & !(crate::bits::P1_PLACEMENT_MASK | crate::bits::P2_PLACEMENT_MASK) == 0,
    ensures
        spec_trapped_bits(pb) == 0,
{
    let sup = spec_supported_both(pb);
    let all = pb.all_pieces;
    assert((all & !sup) & 0x0000_2400_0024_0000u64 == 0) by (bit_vector)
        requires
            all & !(0xFFFF_0000_0000_0000u64 | 0x0000_0000_0000_FFFFu64) == 0,
    ;
}

impl PieceBoard {
    /// The empty board at the start of the setup phase.
    pub fn initial() -> (r: PieceBoard)
        ensures
            r@ == spec_empty_board(),
    {
        PieceBoard(
            PieceBoardState {
                p1_pieces: 0,
                all_pieces: 0,
                elephants: 0,
                camels: 0,
                horses: 0,
                dogs: 0,
                cats: 0,
                rabbits: 0,
            },
        )
    }

    /// A board assembled from per-type bitboards; `all_pieces` is derived.
    pub fn new(
        p1_pieces: u64,
        elephants: u64,
        camels: u64,
        horses: u64,
        dogs: u64,
        cats: u64,
        rabbits: u64,
    ) -> (r: PieceBoard)
        ensures
            r@ == spec_new_board(p1_pieces, elephants, camels, horses, dogs, cats, rabbits),
    {
        PieceBoard(
            PieceBoardState {
                p1_pieces,
                elephants,
                camels,
                horses,
                dogs,
                cats,
                rabbits,
                all_pieces: elephants | camels | horses | dogs | cats | rabbits,
            },
        )
    }

    /// Wraps an already-built board state.
    pub(crate) fn new_from_state(state: PieceBoardState) -> (r: PieceBoard)
        ensures
            r@ == state,
    {
        PieceBoard(state)
    }

    /// A view of the boards.
    pub fn piece_board(&self) -> (r: &PieceBoardState)
        ensures
            *r == self@,
    {
        &self.0
    }

    /// Applies a `Move` action: shifts the bit at the action's square one
    /// step, then sweeps the traps.  Returns the new boards and whether
    /// the sweep removed a piece.
    pub(crate) fn take_action(&self, move_action: &Action) -> (r: (PieceBoardState, bool))
        requires
            move_action matches Action::Move(sq, dir) && sq.wf() && spec_shift_raw(
                1u64 << sq.0,
                *dir,
            ) != 0,
        ensures
            move_action matches Action::Move(sq, dir) ==> {
                &&& r.0 == self@.spec_after_move(1u64 << sq.0, *dir)
                &&& r.1 == (spec_trapped_bits(self@.spec_move_all(1u64 << sq.0, *dir)) != 0)
            },
    {
        let mut piece_board_state = self.0;
        match move_action {
            Action::Move(square, direction) => {
                Self::move_piece(&mut piece_board_state, square, direction);
                let animal_was_trapped = Self::remove_trapped_pieces(&mut piece_board_state);
                (piece_board_state, animal_was_trapped)
            },
            _ => {
                proof {
                    assert(false);
                }
                (piece_board_state, false)
            },
        }
    }

    /// Shifts the piece on `square` one square in a direction, in every
    /// bitboard at once.  The trap sweep must follow each such shift.
    pub(crate) fn move_piece(
        piece_board_state: &mut PieceBoardState,
        square: &Square,
        direction: &Direction,
    )
        requires
            square.wf(),
        ensures
            *final(piece_board_state) == old(piece_board_state).spec_move_all(
                1u64 << square.0,
                *direction,
            ),
    {
        let source_square_bit = square.as_bit_board();
        let pb = piece_board_state;
        pb.elephants = shift_piece_in_direction(pb.elephants, source_square_bit, direction);
        pb.camels = shift_piece_in_direction(pb.camels, source_square_bit, direction);
        pb.horses = shift_piece_in_direction(pb.horses, source_square_bit, direction);
        pb.dogs = shift_piece_in_direction(pb.dogs, source_square_bit, direction);
        pb.cats = shift_piece_in_direction(pb.cats, source_square_bit, direction);
        pb.rabbits = shift_piece_in_direction(pb.rabbits, source_square_bit, direction);
        pb.p1_pieces = shift_piece_in_direction(pb.p1_pieces, source_square_bit, direction);
        pb.all_pieces = shift_piece_in_direction(pb.all_pieces, source_square_bit, direction);
    }

    /// Removes every piece that stands unsupported on a trap square.
    /// Returns whether anything was removed.
    pub(crate) fn remove_trapped_pieces(piece_board_state: &mut PieceBoardState) -> (r: bool)
        ensures
            *final(piece_board_state) == old(piece_board_state).spec_clear(
                spec_trapped_bits(*old(piece_board_state)),
            ),
            r == (spec_trapped_bits(*old(piece_board_state)) != 0),
            spec_trapped_bits(*final(piece_board_state)) == 0,
    {
        let trapped_animal_bits = piece_board_state.trapped_piece_bits();
        let animal_is_trapped = trapped_animal_bits != 0;
        if animal_is_trapped {
            let untrapped_animal_bits = !trapped_animal_bits;
            piece_board_state.elephants &= untrapped_animal_bits;
            piece_board_state.camels &= untrapped_animal_bits;
            piece_board_state.horses &= untrapped_animal_bits;
            piece_board_state.dogs &= untrapped_animal_bits;
            piece_board_state.cats &= untrapped_animal_bits;
            piece_board_state.rabbits &= untrapped_animal_bits;
            piece_board_state.p1_pieces &= untrapped_animal_bits;
            piece_board_state.all_pieces &= untrapped_animal_bits;
        } else {
            proof {
                lemma_clear_zero(*old(piece_board_state));
            }
        }
        proof {
            lemma_trapped_u_eq(*old(piece_board_state));
            lemma_trapped_u_eq(*final(piece_board_state));
            lemma_sweep_complete(
                old(piece_board_state).p1_pieces,
                old(piece_board_state).all_pieces,
            );
        }
        animal_is_trapped
    }
}

/// Clearing nothing changes nothing.
proof fn lemma_clear_zero(pb: PieceBoardState)
    ensures
        pb.spec_clear(0) == pb,
{
    crate::bits::lemma_word_trivia(pb.p1_pieces, 0, 0);
    crate::bits::lemma_word_trivia(pb.all_pieces, 0, 0);
    crate::bits::lemma_word_trivia(pb.elephants, 0, 0);
    crate::bits::lemma_word_trivia(pb.camels, 0, 0);
    crate::bits::lemma_word_trivia(pb.horses, 0, 0);
    crate::bits::lemma_word_trivia(pb.dogs, 0, 0);
    crate::bits::lemma_word_trivia(pb.cats, 0, 0);
    crate::bits::lemma_word_trivia(pb.rabbits, 0, 0);
}

} // verus!
