//! Incremental 64-bit position hashing.
//!
//! Every (piece, owner, square) triple, every step number, the side to move
//! and the push/pull obligations each get a fixed 64-bit value, drawn from a
//! fixed mixing function so hashes are reproducible across processes.  The
//! hash of a position is the exclusive-or of the values of everything on the
//! board; moves update it incrementally by toggling the changed values.

use vstd::prelude::*;
use crate::board::PieceBoardState;
use crate::game::PushPullState;
use crate::piece::Piece;
use crate::square::Square;

verus! {

/// The increment of the fixed value stream.
pub const Z_GOLDEN: u64 = 0x9E37_79B9_7F4A_7C15;

/// First multiplier of the finalizing mixer.
pub const Z_MIX_A: u64 = 0xBF58_476D_1CE4_E5B9;

/// Second multiplier of the finalizing mixer.
pub const Z_MIX_B: u64 = 0x94D0_49BB_1331_11EB;

/// The 64-bit finalizing mixer of the fixed value stream.
pub open spec fn spec_mix(x: u64) -> u64 {
    let z0 = x ^ (x >> 30u64);
    let z1 = z0.wrapping_mul(Z_MIX_A);
    let z2 = z1 ^ (z1 >> 27u64);
    let z3 = z2.wrapping_mul(Z_MIX_B);
    z3 ^ (z3 >> 31u64)
}

/// The fixed 64-bit value with index `i` in the value stream.
#[verifier::opaque]
pub open spec fn zvalue(i: u64) -> u64 {
    spec_mix(i.wrapping_mul(Z_GOLDEN).wrapping_add(Z_GOLDEN))
}

/// Computes the fixed value with index `i`.
pub(crate) fn zvalue_at(i: u64) -> (r: u64)
    ensures
        r == zvalue(i),
{
    proof {
        reveal(zvalue);
    }
    let x = i.wrapping_mul(Z_GOLDEN).wrapping_add(Z_GOLDEN);
    let z0 = x ^ (x >> 30u64);
    let z1 = z0.wrapping_mul(Z_MIX_A);
    let z2 = z1 ^ (z1 >> 27u64);
    let z3 = z2.wrapping_mul(Z_MIX_B);
    z3 ^ (z3 >> 31u64)
}

/// The stream index of the square value of a piece: the twelve
/// (piece, owner) pairs in the order first-player Elephant through Rabbit,
/// then the second player's, each holding 64 squares.
pub open spec fn spec_piece_base(piece: Piece, is_p1: bool) -> int {
    ((5 - piece.spec_strength()) + (if is_p1 {
        0int
    } else {
        6int
    })) * 64
}

/// The square value of a piece: toggled into the hash wherever that piece
/// stands.
pub open spec fn spec_piece_value(square: Square, piece: Piece, is_p1: bool) -> u64 {
    zvalue((spec_piece_base(piece, is_p1) + square.spec_index()) as u64)
}

/// The stream index base of the push obligation values: five pushable
/// piece kinds (an Elephant cannot be pushed), 64 squares each.
pub open spec fn spec_push_base(piece: Piece) -> int {
    768 + (5 - piece.spec_strength() - 1) * 64
}

/// The push obligation value for a pushed piece on a square.
pub open spec fn spec_push_value(square: Square, piece: Piece) -> u64 {
    zvalue((spec_push_base(piece) + square.spec_index()) as u64)
}

/// The stream index base of the pull opportunity values: five pulling
/// piece kinds (a Rabbit cannot pull), 64 squares each.
pub open spec fn spec_pull_base(piece: Piece) -> int {
    1088 + (5 - piece.spec_strength()) * 64
}

/// The pull opportunity value for a puller that left a square.
pub open spec fn spec_pull_value(square: Square, piece: Piece) -> u64 {
    zvalue((spec_pull_base(piece) + square.spec_index()) as u64)
}

/// The step component of the hash, one value per step number.
pub open spec fn spec_step_value(step: int) -> u64 {
    zvalue((1408 + step) as u64)
}

/// The side-to-move component of the hash, toggled while the second
/// player is to move.
pub open spec fn spec_player_value() -> u64 {
    zvalue(1412)
}

/// The hash of the empty setup board with the first player to move.
pub open spec fn spec_initial_value() -> u64 {
    zvalue(1413)
}

/// The exclusive-or of the fixed values `base + i` over the set bits `i`
/// of `b` below `n`.
pub open spec fn fold_vals(b: u64, base: u64, n: nat) -> u64
    decreases n,
{
    if n == 0 {
        0
    } else {
        fold_vals(b, base, (n - 1) as nat) ^ (if (b >> ((n - 1) as u64)) & 1u64 == 1u64 {
            zvalue((base + (n - 1)) as u64)
        } else {
            0
        })
    }
}

/// A board with no set bits below `n` folds to zero.
proof fn lemma_fold_empty(b: u64, base: u64, n: nat)
    requires
        n <= 64,
        forall|j: u64| j < n ==> #[trigger] (b >> j) & 1u64 == 0u64,
    ensures
        fold_vals(b, base, n) == 0,
    decreases n,
{
    if n != 0 {
        lemma_fold_empty(b, base, (n - 1) as nat);
        assert((b >> ((n - 1) as u64)) & 1u64 == 0u64);
        crate::bits::lemma_word_trivia(0, 0, 0);
    }
}

/// The few regroupings of exclusive-or the fold proofs lean on.
proof fn lemma_xor_shuffle(a: u64, b: u64, v: u64)
    by (bit_vector)
    ensures
        (a ^ v) ^ (b ^ v) == a ^ b,
        (a ^ v) ^ (b ^ 0) == (a ^ b) ^ v,
        (a ^ 0) ^ (b ^ v) == (a ^ b) ^ v,
        (a ^ 0) ^ (b ^ 0) == a ^ b,
        (a ^ b) ^ 0 == a ^ b,
        a ^ 0 == a,
        (0u64 ^ 0u64) == 0u64,
{
}

/// Clearing bit `i` removes exactly the value `base + i` from the fold,
/// provided every bit below `i` is already clear.
proof fn lemma_fold_split(b: u64, i: u64, base: u64, n: nat)
    requires
        i < 64,
        n <= 64,
        (b >> i) & 1u64 == 1u64,
        forall|j: u64| j < i ==> #[trigger] (b >> j) & 1u64 == 0u64,
    ensures
        fold_vals(b, base, n) == (if n > i {
            zvalue((base + i) as u64) ^ fold_vals(b & !(1u64 << i), base, n)
        } else {
            0
        }),
    decreases n,
{
    let b2 = b & !(1u64 << i);
    crate::bits::lemma_clear_bit_facts(b, i);
    if n == 0 {
    } else {
        lemma_fold_split(b, i, base, (n - 1) as nat);
        crate::bits::lemma_xor_laws();
        if n - 1 < i {
            assert((b >> ((n - 1) as u64)) & 1u64 == 0u64);
        } else if n - 1 == i {
            assert(forall|j: u64| j < (n - 1) as u64 ==> #[trigger] (b2 >> j) & 1u64 == 0u64);
            lemma_fold_empty(b2, base, (n - 1) as nat);
            lemma_fold_empty(b, base, (n - 1) as nat);
        } else {
            assert((b2 >> ((n - 1) as u64)) & 1u64 == (b >> ((n - 1) as u64)) & 1u64);
        }
    }
}

/// The fold of an exclusive-or of two boards is the exclusive-or of their
/// folds.
pub proof fn lemma_fold_hom(x: u64, y: u64, base: u64, n: nat)
    requires
        n <= 64,
    ensures
        fold_vals(x ^ y, base, n) == fold_vals(x, base, n) ^ fold_vals(y, base, n),
    decreases n,
{
    if n != 0 {
        lemma_fold_hom(x, y, base, (n - 1) as nat);
        crate::bits::lemma_xor_bit_pointwise(x, y);
        assert(((x ^ y) >> ((n - 1) as u64)) & 1u64 == ((x >> ((n - 1) as u64)) & 1u64) ^ ((y >> ((
        n - 1) as u64)) & 1u64));
        let fx = fold_vals(x, base, (n - 1) as nat);
        let fy = fold_vals(y, base, (n - 1) as nat);
        let v = zvalue((base + (n - 1)) as u64);
        let bx = (x >> ((n - 1) as u64)) & 1u64 == 1u64;
        let by = (y >> ((n - 1) as u64)) & 1u64 == 1u64;
        crate::bits::lemma_word_trivia(0, 0, 0);
        let j = (n - 1) as u64;
        assert(((x >> j) & 1u64 == 0u64) || ((x >> j) & 1u64 == 1u64));
        assert(((y >> j) & 1u64 == 0u64) || ((y >> j) & 1u64 == 1u64));
        lemma_xor_shuffle(fx, fy, v);
        if bx && by {
            assert(((x ^ y) >> ((n - 1) as u64)) & 1u64 == 0u64);
            assert(fold_vals(x ^ y, base, n) == (fx ^ fy) ^ 0);
            assert(fold_vals(x, base, n) ^ fold_vals(y, base, n) == (fx ^ v) ^ (fy ^ v));
            assert((fx ^ fy) ^ 0 == (fx ^ v) ^ (fy ^ v));
        } else if bx && !by {
            assert(fold_vals(x ^ y, base, n) == (fx ^ fy) ^ v);
            assert(fold_vals(x, base, n) ^ fold_vals(y, base, n) == (fx ^ v) ^ (fy ^ 0));
            assert((fx ^ fy) ^ v == (fx ^ v) ^ (fy ^ 0));
        } else if !bx && by {
            assert(fold_vals(x ^ y, base, n) == (fx ^ fy) ^ v);
            assert(fold_vals(x, base, n) ^ fold_vals(y, base, n) == (fx ^ 0) ^ (fy ^ v));
            assert((fx ^ fy) ^ v == (fx ^ 0) ^ (fy ^ v));
        } else {
            assert(fold_vals(x ^ y, base, n) == (fx ^ fy) ^ 0);
            assert(fold_vals(x, base, n) ^ fold_vals(y, base, n) == (fx ^ 0) ^ (fy ^ 0));
            assert((fx ^ fy) ^ 0 == (fx ^ 0) ^ (fy ^ 0));
        }
    } else {
        assert(0u64 ^ 0u64 == 0u64) by (bit_vector);
    }
}

/// A single-bit board folds to its own square value.
pub proof fn lemma_fold_single(i: u64, base: u64)
    requires
        i < 64,
    ensures
        fold_vals(1u64 << i, base, 64) == zvalue((base + i) as u64),
{
    crate::bits::lemma_shl_bit_facts(i);
    lemma_fold_split(1u64 << i, i, base, 64);
    crate::bits::lemma_word_trivia(0, 0, 0);
    lemma_fold_empty(0u64, base, 64);
    lemma_xor_shuffle(zvalue((base + i) as u64), 0, 0);
}

/// Adding a fresh bit to a board toggles that bit's value into the fold.
pub proof fn lemma_fold_add_bit(m: u64, i: u64, base: u64)
    requires
        i < 64,
        m & (1u64 << i) == 0,
    ensures
        fold_vals(m | (1u64 << i), base, 64) == fold_vals(m, base, 64) ^ zvalue((base + i) as u64),
{
    assert(m & (1u64 << i) == 0 ==> (m | (1u64 << i)) == (m ^ (1u64 << i))) by (bit_vector);
    lemma_fold_hom(m, 1u64 << i, base, 64);
    lemma_fold_single(i, base);
}

/// Computes the fold of the fixed values over the set bits of a board.
fn fold_mask(mask: u64, base: u64) -> (r: u64)
    requires
        base <= 1408,
    ensures
        r == fold_vals(mask, base, 64),
{
    let ghost orig = mask;
    let mut mask = mask;
    let mut acc: u64 = 0;
    proof {
        crate::bits::lemma_xor_laws();
    }
    while mask != 0
        invariant
            base <= 1408,
            acc ^ fold_vals(mask, base, 64) == fold_vals(orig, base, 64),
        decreases mask,
    {
        proof {
            vstd::std_specs::bits::axiom_u64_trailing_zeros(mask);
            crate::bits::lemma_clear_low_bit(mask);
            lemma_fold_split(mask, vstd::std_specs::bits::u64_trailing_zeros(mask) as u64, base, 64);
            crate::bits::lemma_xor_laws();
        }
        let ghost prev = mask;
        let ghost prev_acc = acc;
        let bit_idx: u32 = mask.trailing_zeros();
        let v = zvalue_at(base + bit_idx as u64);
        acc = acc ^ v;
        mask = mask ^ (1u64 << (bit_idx as u64));
        proof {
            assert(fold_vals(prev, base, 64) == v ^ fold_vals(mask, base, 64));
            assert(acc ^ fold_vals(mask, base, 64) == prev_acc ^ (v ^ fold_vals(mask, base, 64)));
        }
    }
    proof {
        crate::bits::lemma_word_trivia(0, 0, 0);
        lemma_fold_empty(0u64, base, 64);
        crate::bits::lemma_xor_laws();
    }
    acc
}

/// The board component of the hash: the fold of every piece's square
/// value, taken over the twelve (piece, owner) boards.
#[verifier::opaque]
pub open spec fn spec_board_fold(pb: PieceBoardState) -> u64 {
    let p1 = pb.p1_pieces;
    let p2 = !pb.p1_pieces & pb.all_pieces;
    fold_vals(pb.elephants & p1, 0, 64) ^ fold_vals(pb.camels & p1, 64, 64) ^ fold_vals(
        pb.horses & p1,
        128,
        64,
    ) ^ fold_vals(pb.dogs & p1, 192, 64) ^ fold_vals(pb.cats & p1, 256, 64) ^ fold_vals(
        pb.rabbits & p1,
        320,
        64,
    ) ^ fold_vals(pb.elephants & p2, 384, 64) ^ fold_vals(pb.camels & p2, 448, 64) ^ fold_vals(
        pb.horses & p2,
        512,
        64,
    ) ^ fold_vals(pb.dogs & p2, 576, 64) ^ fold_vals(pb.cats & p2, 640, 64) ^ fold_vals(
        pb.rabbits & p2,
        704,
        64,
    )
}

/// The full hash of a play-phase position: the initial value, the side to
/// move, the step component and the board fold.
pub open spec fn spec_full_hash(pb: PieceBoardState, is_p1_turn_to_move: bool, step: int) -> u64 {
    spec_initial_value() ^ (if is_p1_turn_to_move {
        0u64
    } else {
        spec_player_value()
    }) ^ spec_step_value(step) ^ spec_board_fold(pb)
}

/// The hash of a setup-phase position: as above, but with no step
/// component.
pub open spec fn spec_place_hash(pb: PieceBoardState, is_p1_turn_to_move: bool) -> u64 {
    spec_initial_value() ^ (if is_p1_turn_to_move {
        0u64
    } else {
        spec_player_value()
    }) ^ spec_board_fold(pb)
}

/// Computes the board fold of a position.
fn board_fold(pb: &PieceBoardState) -> (r: u64)
    ensures
        r == spec_board_fold(*pb),
{
    proof {
        reveal(spec_board_fold);
    }
    let p1 = pb.p1_pieces;
    let p2 = !pb.p1_pieces & pb.all_pieces;
    fold_mask(pb.elephants & p1, 0) ^ fold_mask(pb.camels & p1, 64) ^ fold_mask(pb.horses & p1, 128)
        ^ fold_mask(pb.dogs & p1, 192) ^ fold_mask(pb.cats & p1, 256) ^ fold_mask(
        pb.rabbits & p1,
        320,
    ) ^ fold_mask(pb.elephants & p2, 384) ^ fold_mask(pb.camels & p2, 448) ^ fold_mask(
        pb.horses & p2,
        512,
    ) ^ fold_mask(pb.dogs & p2, 576) ^ fold_mask(pb.cats & p2, 640) ^ fold_mask(pb.rabbits & p2, 704)
}

/// Inserting one extra value into a twelve-way fold toggles it onto the
/// whole, wherever it lands.
#[verifier::rlimit(30)]
proof fn lemma_xor_insert12(
    x0: u64,
    x1: u64,
    x2: u64,
    x3: u64,
    x4: u64,
    x5: u64,
    x6: u64,
    x7: u64,
    x8: u64,
    x9: u64,
    x10: u64,
    x11: u64,
    v: u64,
)
    by (bit_vector)
    ensures
        (x0 ^ v) ^ x1 ^ x2 ^ x3 ^ x4 ^ x5 ^ x6 ^ x7 ^ x8 ^ x9 ^ x10 ^ x11 == (x0 ^ x1 ^ x2 ^ x3
            ^ x4 ^ x5 ^ x6 ^ x7 ^ x8 ^ x9 ^ x10 ^ x11) ^ v,
        x0 ^ (x1 ^ v) ^ x2 ^ x3 ^ x4 ^ x5 ^ x6 ^ x7 ^ x8 ^ x9 ^ x10 ^ x11 == (x0 ^ x1 ^ x2 ^ x3
            ^ x4 ^ x5 ^ x6 ^ x7 ^ x8 ^ x9 ^ x10 ^ x11) ^ v,
        x0 ^ x1 ^ (x2 ^ v) ^ x3 ^ x4 ^ x5 ^ x6 ^ x7 ^ x8 ^ x9 ^ x10 ^ x11 == (x0 ^ x1 ^ x2 ^ x3
            ^ x4 ^ x5 ^ x6 ^ x7 ^ x8 ^ x9 ^ x10 ^ x11) ^ v,
        x0 ^ x1 ^ x2 ^ (x3 ^ v) ^ x4 ^ x5 ^ x6 ^ x7 ^ x8 ^ x9 ^ x10 ^ x11 == (x0 ^ x1 ^ x2 ^ x3
            ^ x4 ^ x5 ^ x6 ^ x7 ^ x8 ^ x9 ^ x10 ^ x11) ^ v,
        x0 ^ x1 ^ x2 ^ x3 ^ (x4 ^ v) ^ x5 ^ x6 ^ x7 ^ x8 ^ x9 ^ x10 ^ x11 == (x0 ^ x1 ^ x2 ^ x3
            ^ x4 ^ x5 ^ x6 ^ x7 ^ x8 ^ x9 ^ x10 ^ x11) ^ v,
        x0 ^ x1 ^ x2 ^ x3 ^ x4 ^ (x5 ^ v) ^ x6 ^ x7 ^ x8 ^ x9 ^ x10 ^ x11 == (x0 ^ x1 ^ x2 ^ x3
            ^ x4 ^ x5 ^ x6 ^ x7 ^ x8 ^ x9 ^ x10 ^ x11) ^ v,
        x0 ^ x1 ^ x2 ^ x3 ^ x4 ^ x5 ^ (x6 ^ v) ^ x7 ^ x8 ^ x9 ^ x10 ^ x11 == (x0 ^ x1 ^ x2 ^ x3
            ^ x4 ^ x5 ^ x6 ^ x7 ^ x8 ^ x9 ^ x10 ^ x11) ^ v,
        x0 ^ x1 ^ x2 ^ x3 ^ x4 ^ x5 ^ x6 ^ (x7 ^ v) ^ x8 ^ x9 ^ x10 ^ x11 == (x0 ^ x1 ^ x2 ^ x3
            ^ x4 ^ x5 ^ x6 ^ x7 ^ x8 ^ x9 ^ x10 ^ x11) ^ v,
        x0 ^ x1 ^ x2 ^ x3 ^ x4 ^ x5 ^ x6 ^ x7 ^ (x8 ^ v) ^ x9 ^ x10 ^ x11 == (x0 ^ x1 ^ x2 ^ x3
            ^ x4 ^ x5 ^ x6 ^ x7 ^ x8 ^ x9 ^ x10 ^ x11) ^ v,
        x0 ^ x1 ^ x2 ^ x3 ^ x4 ^ x5 ^ x6 ^ x7 ^ x8 ^ (x9 ^ v) ^ x10 ^ x11 == (x0 ^ x1 ^ x2 ^ x3
            ^ x4 ^ x5 ^ x6 ^ x7 ^ x8 ^ x9 ^ x10 ^ x11) ^ v,
        x0 ^ x1 ^ x2 ^ x3 ^ x4 ^ x5 ^ x6 ^ x7 ^ x8 ^ x9 ^ (x10 ^ v) ^ x11 == (x0 ^ x1 ^ x2 ^ x3
            ^ x4 ^ x5 ^ x6 ^ x7 ^ x8 ^ x9 ^ x10 ^ x11) ^ v,
        x0 ^ x1 ^ x2 ^ x3 ^ x4 ^ x5 ^ x6 ^ x7 ^ x8 ^ x9 ^ x10 ^ (x11 ^ v) == (x0 ^ x1 ^ x2 ^ x3
            ^ x4 ^ x5 ^ x6 ^ x7 ^ x8 ^ x9 ^ x10 ^ x11) ^ v,
{
}

/// How a fresh placement bit runs through the twelve owner masks when
/// the first player places: the placed type's own-side mask gains the
/// bit, every other mask is untouched.
proof fn lemma_place_masks_p1(t: u64, u: u64, p1: u64, all: u64, bit: u64)
    by (bit_vector)
    requires
        bit & all == 0,
        t & !all == 0,
        u & !all == 0,
        p1 & !all == 0,
    ensures
        ((t | bit) & (p1 | bit)) == (t & p1) | bit,
        (u & (p1 | bit)) == u & p1,
        ((t | bit) & (!(p1 | bit) & (all | bit))) == t & (!p1 & all),
        (u & (!(p1 | bit) & (all | bit))) == u & (!p1 & all),
        ((t & p1) & bit) == 0,
{
}

/// How a fresh placement bit runs through the twelve owner masks when
/// the second player places.
proof fn lemma_place_masks_p2(t: u64, u: u64, p1: u64, all: u64, bit: u64)
    by (bit_vector)
    requires
        bit & all == 0,
        t & !all == 0,
        u & !all == 0,
        p1 & !all == 0,
    ensures
        ((t | bit) & p1) == t & p1,
        (u & p1) == u & p1,
        ((t | bit) & (!p1 & (all | bit))) == (t & (!p1 & all)) | bit,
        (u & (!p1 & (all | bit))) == u & (!p1 & all),
        ((t & (!p1 & all)) & bit) == 0,
{
}

/// Inserting a fresh bit into one board of a six-way union adds it to the
/// whole union.
proof fn lemma_or_insert6(e: u64, m: u64, h: u64, d: u64, c: u64, r: u64, bit: u64)
    by (bit_vector)
    ensures
        (e | bit) | m | h | d | c | r == (e | m | h | d | c | r) | bit,
        e | (m | bit) | h | d | c | r == (e | m | h | d | c | r) | bit,
        e | m | (h | bit) | d | c | r == (e | m | h | d | c | r) | bit,
        e | m | h | (d | bit) | c | r == (e | m | h | d | c | r) | bit,
        e | m | h | d | (c | bit) | r == (e | m | h | d | c | r) | bit,
        e | m | h | d | c | (r | bit) == (e | m | h | d | c | r) | bit,
{
}

/// Setting a piece down on an empty square toggles exactly that piece's
/// square value into the board fold.
pub proof fn lemma_board_fold_place(pb: PieceBoardState, piece: Piece, is_p1: bool, i: u64)
    requires
        pb.disjoint_wf(),
        i < 64,
        (1u64 << i) & pb.all_pieces == 0,
    ensures
        spec_board_fold(crate::board::spec_place_board(pb, piece, is_p1, 1u64 << i))
            == spec_board_fold(pb) ^ spec_piece_value(Square(i as u8), piece, is_p1),
{
    reveal(spec_board_fold);
    let bit = 1u64 << i;
    let e = pb.elephants;
    let m = pb.camels;
    let h = pb.horses;
    let d = pb.dogs;
    let c = pb.cats;
    let r = pb.rabbits;
    let p1 = pb.p1_pieces;
    let all = pb.all_pieces;
    let newpb = crate::board::spec_place_board(pb, piece, is_p1, bit);
    crate::board::lemma_union_facts(e, m, h, d, c, r, 0);
    lemma_or_insert6(e, m, h, d, c, r, bit);
    assert(newpb.all_pieces == all | bit);
    let t = pb.spec_bits_by_piece_type(piece);
    if is_p1 {
        lemma_place_masks_p1(t, e, p1, all, bit);
        lemma_place_masks_p1(t, m, p1, all, bit);
        lemma_place_masks_p1(t, h, p1, all, bit);
        lemma_place_masks_p1(t, d, p1, all, bit);
        lemma_place_masks_p1(t, c, p1, all, bit);
        lemma_place_masks_p1(t, r, p1, all, bit);
        lemma_fold_add_bit(t & p1, i, spec_piece_base(piece, true) as u64);
    } else {
        lemma_place_masks_p2(t, e, p1, all, bit);
        lemma_place_masks_p2(t, m, p1, all, bit);
        lemma_place_masks_p2(t, h, p1, all, bit);
        lemma_place_masks_p2(t, d, p1, all, bit);
        lemma_place_masks_p2(t, c, p1, all, bit);
        lemma_place_masks_p2(t, r, p1, all, bit);
        lemma_fold_add_bit(t & (!p1 & all), i, spec_piece_base(piece, false) as u64);
    }
    let f0 = fold_vals(e & p1, 0, 64);
    let f1 = fold_vals(m & p1, 64, 64);
    let f2 = fold_vals(h & p1, 128, 64);
    let f3 = fold_vals(d & p1, 192, 64);
    let f4 = fold_vals(c & p1, 256, 64);
    let f5 = fold_vals(r & p1, 320, 64);
    let p2 = !p1 & all;
    let f6 = fold_vals(e & p2, 384, 64);
    let f7 = fold_vals(m & p2, 448, 64);
    let f8 = fold_vals(h & p2, 512, 64);
    let f9 = fold_vals(d & p2, 576, 64);
    let f10 = fold_vals(c & p2, 640, 64);
    let f11 = fold_vals(r & p2, 704, 64);
    let v = spec_piece_value(Square(i as u8), piece, is_p1);
    lemma_xor_insert12(f0, f1, f2, f3, f4, f5, f6, f7, f8, f9, f10, f11, v);
    if is_p1 {
        match piece {
        Piece::Elephant => {
            assert(newpb.elephants & newpb.p1_pieces == (e & p1) | bit);
            assert(newpb.camels & newpb.p1_pieces == m & p1);
            assert(newpb.horses & newpb.p1_pieces == h & p1);
            assert(newpb.dogs & newpb.p1_pieces == d & p1);
            assert(newpb.cats & newpb.p1_pieces == c & p1);
            assert(newpb.rabbits & newpb.p1_pieces == r & p1);
            assert(newpb.elephants & (!newpb.p1_pieces & newpb.all_pieces) == e & p2);
            assert(newpb.camels & (!newpb.p1_pieces & newpb.all_pieces) == m & p2);
            assert(newpb.horses & (!newpb.p1_pieces & newpb.all_pieces) == h & p2);
            assert(newpb.dogs & (!newpb.p1_pieces & newpb.all_pieces) == d & p2);
            assert(newpb.cats & (!newpb.p1_pieces & newpb.all_pieces) == c & p2);
            assert(newpb.rabbits & (!newpb.p1_pieces & newpb.all_pieces) == r & p2);
            assert(fold_vals((e & p1) | bit, 0, 64) == f0 ^ v);
            assert(spec_board_fold(newpb) == (f0 ^ v) ^ f1 ^ f2 ^ f3 ^ f4 ^ f5 ^ f6 ^ f7 ^ f8 ^ f9 ^ f10 ^ f11);
            },
        Piece::Camel => {
            assert(newpb.elephants & newpb.p1_pieces == e & p1);
            assert(newpb.camels & newpb.p1_pieces == (m & p1) | bit);
            assert(newpb.horses & newpb.p1_pieces == h & p1);
            assert(newpb.dogs & newpb.p1_pieces == d & p1);
            assert(newpb.cats & newpb.p1_pieces == c & p1);
            assert(newpb.rabbits & newpb.p1_pieces == r & p1);
            assert(newpb.elephants & (!newpb.p1_pieces & newpb.all_pieces) == e & p2);
            assert(newpb.camels & (!newpb.p1_pieces & newpb.all_pieces) == m & p2);
            assert(newpb.horses & (!newpb.p1_pieces & newpb.all_pieces) == h & p2);
            assert(newpb.dogs & (!newpb.p1_pieces & newpb.all_pieces) == d & p2);
            assert(newpb.cats & (!newpb.p1_pieces & newpb.all_pieces) == c & p2);
            assert(newpb.rabbits & (!newpb.p1_pieces & newpb.all_pieces) == r & p2);
            assert(fold_vals((m & p1) | bit, 64, 64) == f1 ^ v);
            assert(spec_board_fold(newpb) == f0 ^ (f1 ^ v) ^ f2 ^ f3 ^ f4 ^ f5 ^ f6 ^ f7 ^ f8 ^ f9 ^ f10 ^ f11);
            },
        Piece::Horse => {
            assert(newpb.elephants & newpb.p1_pieces == e & p1);
            assert(newpb.camels & newpb.p1_pieces == m & p1);
            assert(newpb.horses & newpb.p1_pieces == (h & p1) | bit);
            assert(newpb.dogs & newpb.p1_pieces == d & p1);
            assert(newpb.cats & newpb.p1_pieces == c & p1);
            assert(newpb.rabbits & newpb.p1_pieces == r & p1);
            assert(newpb.elephants & (!newpb.p1_pieces & newpb.all_pieces) == e & p2);
            assert(newpb.camels & (!newpb.p1_pieces & newpb.all_pieces) == m & p2);
            assert(newpb.horses & (!newpb.p1_pieces & newpb.all_pieces) == h & p2);
            assert(newpb.dogs & (!newpb.p1_pieces & newpb.all_pieces) == d & p2);
            assert(newpb.cats & (!newpb.p1_pieces & newpb.all_pieces) == c & p2);
            assert(newpb.rabbits & (!newpb.p1_pieces & newpb.all_pieces) == r & p2);
            assert(fold_vals((h & p1) | bit, 128, 64) == f2 ^ v);
            assert(spec_board_fold(newpb) == f0 ^ f1 ^ (f2 ^ v) ^ f3 ^ f4 ^ f5 ^ f6 ^ f7 ^ f8 ^ f9 ^ f10 ^ f11);
            },
        Piece::Dog => {
            assert(newpb.elephants & newpb.p1_pieces == e & p1);
            assert(newpb.camels & newpb.p1_pieces == m & p1);
            assert(newpb.horses & newpb.p1_pieces == h & p1);
            assert(newpb.dogs & newpb.p1_pieces == (d & p1) | bit);
            assert(newpb.cats & newpb.p1_pieces == c & p1);
            assert(newpb.rabbits & newpb.p1_pieces == r & p1);
            assert(newpb.elephants & (!newpb.p1_pieces & newpb.all_pieces) == e & p2);
            assert(newpb.camels & (!newpb.p1_pieces & newpb.all_pieces) == m & p2);
            assert(newpb.horses & (!newpb.p1_pieces & newpb.all_pieces) == h & p2);
            assert(newpb.dogs & (!newpb.p1_pieces & newpb.all_pieces) == d & p2);
            assert(newpb.cats & (!newpb.p1_pieces & newpb.all_pieces) == c & p2);
            assert(newpb.rabbits & (!newpb.p1_pieces & newpb.all_pieces) == r & p2);
            assert(fold_vals((d & p1) | bit, 192, 64) == f3 ^ v);
            assert(spec_board_fold(newpb) == f0 ^ f1 ^ f2 ^ (f3 ^ v) ^ f4 ^ f5 ^ f6 ^ f7 ^ f8 ^ f9 ^ f10 ^ f11);
            },
        Piece::Cat => {
            assert(newpb.elephants & newpb.p1_pieces == e & p1);
            assert(newpb.camels & newpb.p1_pieces == m & p1);
            assert(newpb.horses & newpb.p1_pieces == h & p1);
            assert(newpb.dogs & newpb.p1_pieces == d & p1);
            assert(newpb.cats & newpb.p1_pieces == (c & p1) | bit);
            assert(newpb.rabbits & newpb.p1_pieces == r & p1);
            assert(newpb.elephants & (!newpb.p1_pieces & newpb.all_pieces) == e & p2);
            assert(newpb.camels & (!newpb.p1_pieces & newpb.all_pieces) == m & p2);
            assert(newpb.horses & (!newpb.p1_pieces & newpb.all_pieces) == h & p2);
            assert(newpb.dogs & (!newpb.p1_pieces & newpb.all_pieces) == d & p2);
            assert(newpb.cats & (!newpb.p1_pieces & newpb.all_pieces) == c & p2);
            assert(newpb.rabbits & (!newpb.p1_pieces & newpb.all_pieces) == r & p2);
            assert(fold_vals((c & p1) | bit, 256, 64) == f4 ^ v);
            assert(spec_board_fold(newpb) == f0 ^ f1 ^ f2 ^ f3 ^ (f4 ^ v) ^ f5 ^ f6 ^ f7 ^ f8 ^ f9 ^ f10 ^ f11);
            },
        Piece::Rabbit => {
            assert(newpb.elephants & newpb.p1_pieces == e & p1);
            assert(newpb.camels & newpb.p1_pieces == m & p1);
            assert(newpb.horses & newpb.p1_pieces == h & p1);
            assert(newpb.dogs & newpb.p1_pieces == d & p1);
            assert(newpb.cats & newpb.p1_pieces == c & p1);
            assert(newpb.rabbits & newpb.p1_pieces == (r & p1) | bit);
            assert(newpb.elephants & (!newpb.p1_pieces & newpb.all_pieces) == e & p2);
            assert(newpb.camels & (!newpb.p1_pieces & newpb.all_pieces) == m & p2);
            assert(newpb.horses & (!newpb.p1_pieces & newpb.all_pieces) == h & p2);
            assert(newpb.dogs & (!newpb.p1_pieces & newpb.all_pieces) == d & p2);
            assert(newpb.cats & (!newpb.p1_pieces & newpb.all_pieces) == c & p2);
            assert(newpb.rabbits & (!newpb.p1_pieces & newpb.all_pieces) == r & p2);
            assert(fold_vals((r & p1) | bit, 320, 64) == f5 ^ v);
            assert(spec_board_fold(newpb) == f0 ^ f1 ^ f2 ^ f3 ^ f4 ^ (f5 ^ v) ^ f6 ^ f7 ^ f8 ^ f9 ^ f10 ^ f11);
            },
        }
    } else {
        assert(p1 | 0u64 == p1) by (bit_vector);
        match piece {
        Piece::Elephant => {
            assert(newpb.elephants & newpb.p1_pieces == e & p1);
            assert(newpb.camels & newpb.p1_pieces == m & p1);
            assert(newpb.horses & newpb.p1_pieces == h & p1);
            assert(newpb.dogs & newpb.p1_pieces == d & p1);
            assert(newpb.cats & newpb.p1_pieces == c & p1);
            assert(newpb.rabbits & newpb.p1_pieces == r & p1);
            assert(newpb.elephants & (!newpb.p1_pieces & newpb.all_pieces) == (e & p2) | bit);
            assert(newpb.camels & (!newpb.p1_pieces & newpb.all_pieces) == m & p2);
            assert(newpb.horses & (!newpb.p1_pieces & newpb.all_pieces) == h & p2);
            assert(newpb.dogs & (!newpb.p1_pieces & newpb.all_pieces) == d & p2);
            assert(newpb.cats & (!newpb.p1_pieces & newpb.all_pieces) == c & p2);
            assert(newpb.rabbits & (!newpb.p1_pieces & newpb.all_pieces) == r & p2);
            assert(fold_vals((e & p2) | bit, 384, 64) == f6 ^ v);
            assert(spec_board_fold(newpb) == f0 ^ f1 ^ f2 ^ f3 ^ f4 ^ f5 ^ (f6 ^ v) ^ f7 ^ f8 ^ f9 ^ f10 ^ f11);
            },
        Piece::Camel => {
            assert(newpb.elephants & newpb.p1_pieces == e & p1);
            assert(newpb.camels & newpb.p1_pieces == m & p1);
            assert(newpb.horses & newpb.p1_pieces == h & p1);
            assert(newpb.dogs & newpb.p1_pieces == d & p1);
            assert(newpb.cats & newpb.p1_pieces == c & p1);
            assert(newpb.rabbits & newpb.p1_pieces == r & p1);
            assert(newpb.elephants & (!newpb.p1_pieces & newpb.all_pieces) == e & p2);
            assert(newpb.camels & (!newpb.p1_pieces & newpb.all_pieces) == (m & p2) | bit);
            assert(newpb.horses & (!newpb.p1_pieces & newpb.all_pieces) == h & p2);
            assert(newpb.dogs & (!newpb.p1_pieces & newpb.all_pieces) == d & p2);
            assert(newpb.cats & (!newpb.p1_pieces & newpb.all_pieces) == c & p2);
            assert(newpb.rabbits & (!newpb.p1_pieces & newpb.all_pieces) == r & p2);
            assert(fold_vals((m & p2) | bit, 448, 64) == f7 ^ v);
            assert(spec_board_fold(newpb) == f0 ^ f1 ^ f2 ^ f3 ^ f4 ^ f5 ^ f6 ^ (f7 ^ v) ^ f8 ^ f9 ^ f10 ^ f11);
            },
        Piece::Horse => {
            assert(newpb.elephants & newpb.p1_pieces == e & p1);
            assert(newpb.camels & newpb.p1_pieces == m & p1);
            assert(newpb.horses & newpb.p1_pieces == h & p1);
            assert(newpb.dogs & newpb.p1_pieces == d & p1);
            assert(newpb.cats & newpb.p1_pieces == c & p1);
            assert(newpb.rabbits & newpb.p1_pieces == r & p1);
            assert(newpb.elephants & (!newpb.p1_pieces & newpb.all_pieces) == e & p2);
            assert(newpb.camels & (!newpb.p1_pieces & newpb.all_pieces) == m & p2);
            assert(newpb.horses & (!newpb.p1_pieces & newpb.all_pieces) == (h & p2) | bit);
            assert(newpb.dogs & (!newpb.p1_pieces & newpb.all_pieces) == d & p2);
            assert(newpb.cats & (!newpb.p1_pieces & newpb.all_pieces) == c & p2);
            assert(newpb.rabbits & (!newpb.p1_pieces & newpb.all_pieces) == r & p2);
            assert(fold_vals((h & p2) | bit, 512, 64) == f8 ^ v);
            assert(spec_board_fold(newpb) == f0 ^ f1 ^ f2 ^ f3 ^ f4 ^ f5 ^ f6 ^ f7 ^ (f8 ^ v) ^ f9 ^ f10 ^ f11);
            },
        Piece::Dog => {
            assert(newpb.elephants & newpb.p1_pieces == e & p1);
            assert(newpb.camels & newpb.p1_pieces == m & p1);
            assert(newpb.horses & newpb.p1_pieces == h & p1);
            assert(newpb.dogs & newpb.p1_pieces == d & p1);
            assert(newpb.cats & newpb.p1_pieces == c & p1);
            assert(newpb.rabbits & newpb.p1_pieces == r & p1);
            assert(newpb.elephants & (!newpb.p1_pieces & newpb.all_pieces) == e & p2);
            assert(newpb.camels & (!newpb.p1_pieces & newpb.all_pieces) == m & p2);
            assert(newpb.horses & (!newpb.p1_pieces & newpb.all_pieces) == h & p2);
            assert(newpb.dogs & (!newpb.p1_pieces & newpb.all_pieces) == (d & p2) | bit);
            assert(newpb.cats & (!newpb.p1_pieces & newpb.all_pieces) == c & p2);
            assert(newpb.rabbits & (!newpb.p1_pieces & newpb.all_pieces) == r & p2);
            assert(fold_vals((d & p2) | bit, 576, 64) == f9 ^ v);
            assert(spec_board_fold(newpb) == f0 ^ f1 ^ f2 ^ f3 ^ f4 ^ f5 ^ f6 ^ f7 ^ f8 ^ (f9 ^ v) ^ f10 ^ f11);
            },
        Piece::Cat => {
            assert(newpb.elephants & newpb.p1_pieces == e & p1);
            assert(newpb.camels & newpb.p1_pieces == m & p1);
            assert(newpb.horses & newpb.p1_pieces == h & p1);
            assert(newpb.dogs & newpb.p1_pieces == d & p1);
            assert(newpb.cats & newpb.p1_pieces == c & p1);
            assert(newpb.rabbits & newpb.p1_pieces == r & p1);
            assert(newpb.elephants & (!newpb.p1_pieces & newpb.all_pieces) == e & p2);
            assert(newpb.camels & (!newpb.p1_pieces & newpb.all_pieces) == m & p2);
            assert(newpb.horses & (!newpb.p1_pieces & newpb.all_pieces) == h & p2);
            assert(newpb.dogs & (!newpb.p1_pieces & newpb.all_pieces) == d & p2);
            assert(newpb.cats & (!newpb.p1_pieces & newpb.all_pieces) == (c & p2) | bit);
            assert(newpb.rabbits & (!newpb.p1_pieces & newpb.all_pieces) == r & p2);
            assert(fold_vals((c & p2) | bit, 640, 64) == f10 ^ v);
            assert(spec_board_fold(newpb) == f0 ^ f1 ^ f2 ^ f3 ^ f4 ^ f5 ^ f6 ^ f7 ^ f8 ^ f9 ^ (f10 ^ v) ^ f11);
            },
        Piece::Rabbit => {
            assert(newpb.elephants & newpb.p1_pieces == e & p1);
            assert(newpb.camels & newpb.p1_pieces == m & p1);
            assert(newpb.horses & newpb.p1_pieces == h & p1);
            assert(newpb.dogs & newpb.p1_pieces == d & p1);
            assert(newpb.cats & newpb.p1_pieces == c & p1);
            assert(newpb.rabbits & newpb.p1_pieces == r & p1);
            assert(newpb.elephants & (!newpb.p1_pieces & newpb.all_pieces) == e & p2);
            assert(newpb.camels & (!newpb.p1_pieces & newpb.all_pieces) == m & p2);
            assert(newpb.horses & (!newpb.p1_pieces & newpb.all_pieces) == h & p2);
            assert(newpb.dogs & (!newpb.p1_pieces & newpb.all_pieces) == d & p2);
            assert(newpb.cats & (!newpb.p1_pieces & newpb.all_pieces) == c & p2);
            assert(newpb.rabbits & (!newpb.p1_pieces & newpb.all_pieces) == (r & p2) | bit);
            assert(fold_vals((r & p2) | bit, 704, 64) == f11 ^ v);
            assert(spec_board_fold(newpb) == f0 ^ f1 ^ f2 ^ f3 ^ f4 ^ f5 ^ f6 ^ f7 ^ f8 ^ f9 ^ f10 ^ (f11 ^ v));
            },
        }
    }
}

/// The exclusive-or of twelve pairs regroups into two twelve-way folds.
proof fn lemma_xor_zip12(
    a0: u64,
    a1: u64,
    a2: u64,
    a3: u64,
    a4: u64,
    a5: u64,
    a6: u64,
    a7: u64,
    a8: u64,
    a9: u64,
    a10: u64,
    a11: u64,
    b0: u64,
    b1: u64,
    b2: u64,
    b3: u64,
    b4: u64,
    b5: u64,
    b6: u64,
    b7: u64,
    b8: u64,
    b9: u64,
    b10: u64,
    b11: u64,
)
    by (bit_vector)
    ensures
        (a0 ^ b0) ^ (a1 ^ b1) ^ (a2 ^ b2) ^ (a3 ^ b3) ^ (a4 ^ b4) ^ (a5 ^ b5) ^ (a6 ^ b6) ^ (a7
            ^ b7) ^ (a8 ^ b8) ^ (a9 ^ b9) ^ (a10 ^ b10) ^ (a11 ^ b11) == (a0 ^ a1 ^ a2 ^ a3 ^ a4
            ^ a5 ^ a6 ^ a7 ^ a8 ^ a9 ^ a10 ^ a11) ^ (b0 ^ b1 ^ b2 ^ b3 ^ b4 ^ b5 ^ b6 ^ b7 ^ b8
            ^ b9 ^ b10 ^ b11),
{
}

/// Computes the exclusive-or of the board folds of two positions: the
/// toggles that rewrite one position's hash into the other's.
fn board_fold_diff(prev: &PieceBoardState, curr: &PieceBoardState) -> (r: u64)
    ensures
        r == spec_board_fold(*prev) ^ spec_board_fold(*curr),
{
    proof {
        reveal(spec_board_fold);
    }
    let p1a = prev.p1_pieces;
    let p2a = !prev.p1_pieces & prev.all_pieces;
    let p1b = curr.p1_pieces;
    let p2b = !curr.p1_pieces & curr.all_pieces;
    let r = fold_mask((prev.elephants & p1a) ^ (curr.elephants & p1b), 0) ^ fold_mask(
        (prev.camels & p1a) ^ (curr.camels & p1b),
        64,
    ) ^ fold_mask((prev.horses & p1a) ^ (curr.horses & p1b), 128) ^ fold_mask(
        (prev.dogs & p1a) ^ (curr.dogs & p1b),
        192,
    ) ^ fold_mask((prev.cats & p1a) ^ (curr.cats & p1b), 256) ^ fold_mask(
        (prev.rabbits & p1a) ^ (curr.rabbits & p1b),
        320,
    ) ^ fold_mask((prev.elephants & p2a) ^ (curr.elephants & p2b), 384) ^ fold_mask(
        (prev.camels & p2a) ^ (curr.camels & p2b),
        448,
    ) ^ fold_mask((prev.horses & p2a) ^ (curr.horses & p2b), 512) ^ fold_mask(
        (prev.dogs & p2a) ^ (curr.dogs & p2b),
        576,
    ) ^ fold_mask((prev.cats & p2a) ^ (curr.cats & p2b), 640) ^ fold_mask(
        (prev.rabbits & p2a) ^ (curr.rabbits & p2b),
        704,
    );
    proof {
        lemma_fold_hom(prev.elephants & p1a, curr.elephants & p1b, 0, 64);
        lemma_fold_hom(prev.camels & p1a, curr.camels & p1b, 64, 64);
        lemma_fold_hom(prev.horses & p1a, curr.horses & p1b, 128, 64);
        lemma_fold_hom(prev.dogs & p1a, curr.dogs & p1b, 192, 64);
        lemma_fold_hom(prev.cats & p1a, curr.cats & p1b, 256, 64);
        lemma_fold_hom(prev.rabbits & p1a, curr.rabbits & p1b, 320, 64);
        lemma_fold_hom(prev.elephants & p2a, curr.elephants & p2b, 384, 64);
        lemma_fold_hom(prev.camels & p2a, curr.camels & p2b, 448, 64);
        lemma_fold_hom(prev.horses & p2a, curr.horses & p2b, 512, 64);
        lemma_fold_hom(prev.dogs & p2a, curr.dogs & p2b, 576, 64);
        lemma_fold_hom(prev.cats & p2a, curr.cats & p2b, 640, 64);
        lemma_fold_hom(prev.rabbits & p2a, curr.rabbits & p2b, 704, 64);
        lemma_xor_zip12(
            fold_vals(prev.elephants & p1a, 0, 64),
            fold_vals(prev.camels & p1a, 64, 64),
            fold_vals(prev.horses & p1a, 128, 64),
            fold_vals(prev.dogs & p1a, 192, 64),
            fold_vals(prev.cats & p1a, 256, 64),
            fold_vals(prev.rabbits & p1a, 320, 64),
            fold_vals(prev.elephants & p2a, 384, 64),
            fold_vals(prev.camels & p2a, 448, 64),
            fold_vals(prev.horses & p2a, 512, 64),
            fold_vals(prev.dogs & p2a, 576, 64),
            fold_vals(prev.cats & p2a, 640, 64),
            fold_vals(prev.rabbits & p2a, 704, 64),
            fold_vals(curr.elephants & p1b, 0, 64),
            fold_vals(curr.camels & p1b, 64, 64),
            fold_vals(curr.horses & p1b, 128, 64),
            fold_vals(curr.dogs & p1b, 192, 64),
            fold_vals(curr.cats & p1b, 256, 64),
            fold_vals(curr.rabbits & p1b, 320, 64),
            fold_vals(curr.elephants & p2b, 384, 64),
            fold_vals(curr.camels & p2b, 448, 64),
            fold_vals(curr.horses & p2b, 512, 64),
            fold_vals(curr.dogs & p2b, 576, 64),
            fold_vals(curr.cats & p2b, 640, 64),
            fold_vals(curr.rabbits & p2b, 704, 64),
        );
    }
    r
}

/// The empty board folds to zero.
pub proof fn lemma_board_fold_empty()
    ensures
        spec_board_fold(crate::board::spec_empty_board()) == 0,
{
    reveal(spec_board_fold);
    crate::bits::lemma_word_trivia(0, 0, 0);
    assert(0u64 & 0u64 == 0u64);
    assert(!0u64 & 0u64 == 0u64) by {
        crate::bits::lemma_word_trivia(0u64, 0, 0);
    }
    assert(0u64 & (!0u64 & 0u64) == 0u64);
    assert(forall|j: u64| j < 64 ==> #[trigger] ((0u64 & 0u64) >> j) & 1u64 == 0u64);
    assert(forall|j: u64| j < 64 ==> #[trigger] ((0u64 & (!0u64 & 0u64)) >> j) & 1u64 == 0u64);
    lemma_fold_empty(0u64 & 0u64, 0, 64);
    lemma_fold_empty(0u64 & 0u64, 64, 64);
    lemma_fold_empty(0u64 & 0u64, 128, 64);
    lemma_fold_empty(0u64 & 0u64, 192, 64);
    lemma_fold_empty(0u64 & 0u64, 256, 64);
    lemma_fold_empty(0u64 & 0u64, 320, 64);
    lemma_fold_empty(0u64 & (!0u64 & 0u64), 384, 64);
    lemma_fold_empty(0u64 & (!0u64 & 0u64), 448, 64);
    lemma_fold_empty(0u64 & (!0u64 & 0u64), 512, 64);
    lemma_fold_empty(0u64 & (!0u64 & 0u64), 576, 64);
    lemma_fold_empty(0u64 & (!0u64 & 0u64), 640, 64);
    lemma_fold_empty(0u64 & (!0u64 & 0u64), 704, 64);
    crate::bits::lemma_xor_laws();
}

/// A position hash, maintained incrementally as actions are applied.
#[derive(Clone, Copy, Debug, PartialEq, Eq, Structural, Hash)]
pub struct Zobrist {
    hash: u64,
}

impl Zobrist {
    /// The hash value carried by this wrapper.
    pub closed spec fn spec_hash(self) -> u64 {
        self.hash
    }

    /// The hash of the empty board at the start of the setup phase.
    pub fn initial() -> (r: Zobrist)
        ensures
            r.spec_hash() == spec_initial_value(),
            r.spec_hash() == spec_place_hash(crate::board::spec_empty_board(), true),
    {
        proof {
            lemma_board_fold_empty();
            crate::bits::lemma_xor_laws();
        }
        Zobrist { hash: zvalue_at(1413) }
    }

    /// The hash of a play-phase position computed from scratch.
    pub fn from_piece_board(
        piece_board: &PieceBoardState,
        is_p1_turn_to_move: bool,
        step_num: usize,
    ) -> (r: Zobrist)
        requires
            step_num < 4,
        ensures
            r.spec_hash() == spec_full_hash(*piece_board, is_p1_turn_to_move, step_num as int),
    {
        proof {
            crate::bits::lemma_xor_laws();
        }
        let mut hash = zvalue_at(1413);
        if !is_p1_turn_to_move {
            hash = hash ^ zvalue_at(1412);
        }
        hash = hash ^ zvalue_at(1408 + step_num as u64);
        hash = hash ^ board_fold(piece_board);
        Zobrist { hash }
    }

    /// The hash after a setup placement: toggles the placed piece's square
    /// value, and the side and step components where the placement hands
    /// the turn over or starts the play phase.
    pub fn place_piece(
        &self,
        piece: Piece,
        square: Square,
        place_is_p1: bool,
        switch_players: bool,
        switch_phases: bool,
    ) -> (r: Zobrist)
        requires
            square.wf(),
        ensures
            r.spec_hash() == self.spec_hash() ^ (if switch_players || switch_phases {
                spec_player_value()
            } else {
                0u64
            }) ^ spec_piece_value(square, piece, place_is_p1) ^ (if switch_phases {
                spec_step_value(0)
            } else {
                0u64
            }),
    {
        let player_to_move_value: u64 = if switch_players || switch_phases {
            zvalue_at(1412)
        } else {
            0
        };
        let piece_idx: u64 = (5 - piece.strength() as u64) + (if place_is_p1 {
            0
        } else {
            6
        });
        let place_piece_value = zvalue_at(piece_idx * 64 + square.index() as u64);
        let step_value: u64 = if switch_phases {
            zvalue_at(1408)
        } else {
            0
        };
        let hash = self.hash ^ player_to_move_value ^ place_piece_value ^ step_value;
        Zobrist { hash }
    }

    /// The hash after the side to move passes: the side component flips
    /// and the step component returns to zero.
    pub fn pass(&self, step: usize) -> (r: Zobrist)
        requires
            step < 4,
        ensures
            r.spec_hash() == self.spec_hash() ^ spec_player_value() ^ spec_step_value(0)
                ^ spec_step_value(step as int),
    {
        let hash = self.hash ^ zvalue_at(1412) ^ zvalue_at(1408) ^ zvalue_at(1408 + step as u64);
        Zobrist { hash }
    }

    /// The hash with the step component replaced by step zero: what the
    /// hash would read at the start of a move.
    pub fn exclude_step(&self, step: usize) -> (r: Zobrist)
        requires
            step < 4,
        ensures
            r.spec_hash() == self.spec_hash() ^ spec_step_value(0) ^ spec_step_value(step as int),
    {
        let hash = self.hash ^ zvalue_at(1408) ^ zvalue_at(1408 + step as u64);
        Zobrist { hash }
    }

    /// The plain board-state hash.
    pub fn board_state_hash(&self) -> (r: u64)
        ensures
            r == self.spec_hash(),
    {
        self.hash
    }

    /// The board-state hash with the push or pull obligation toggled in.
    pub fn board_state_hash_with_push_pull_state(&self, push_pull_state: PushPullState) -> (r: u64)
        requires
            push_pull_state matches PushPullState::MustCompletePush(sq, piece) ==> sq.wf() && piece
                != Piece::Elephant,
            push_pull_state matches PushPullState::PossiblePull(sq, piece) ==> sq.wf() && piece
                != Piece::Rabbit,
        ensures
            r == self.spec_hash() ^ spec_push_pull_hash(push_pull_state),
    {
        let push_pull_hash: u64 = match push_pull_state {
            PushPullState::MustCompletePush(square, piece) => {
                let piece_idx: u64 = (5 - piece.strength() as u64) - 1;
                zvalue_at(768 + piece_idx * 64 + square.index() as u64)
            },
            PushPullState::PossiblePull(square, piece) => {
                let piece_idx: u64 = 5 - piece.strength() as u64;
                zvalue_at(1088 + piece_idx * 64 + square.index() as u64)
            },
            PushPullState::Free => 0,
        };
        self.hash ^ push_pull_hash
    }
}

/// Rewriting a full hash piece by piece: toggling the side change, the
/// board fold difference and the step difference into the old hash gives
/// the new full hash.
proof fn lemma_hash_update(i: u64, c: u64, c2: u64, dc: u64, s: u64, s2: u64, f: u64, f2: u64)
    by (bit_vector)
    requires
        dc == c ^ c2,
    ensures
        ((((((i ^ c) ^ s) ^ f) ^ dc) ^ (f ^ f2)) ^ (s ^ s2)) == ((i ^ c2) ^ s2) ^ f2,
{
}

/// The component values a side flip toggles.
pub(crate) proof fn lemma_side_toggle(v: u64)
    by (bit_vector)
    ensures
        v ^ 0 == v,
        (0u64 ^ v) == v,
        v ^ v == 0,
        (0u64 ^ 0u64) == 0u64,
{
}

impl Zobrist {
    /// The hash after one step moves a piece: toggles the changed square
    /// values, the step change, and the side change if the turn ends.
    pub fn move_piece(
        &self,
        prev_game_state: &crate::game::GameState,
        new_piece_board: &PieceBoardState,
        new_step: usize,
        new_p1_turn_to_move: bool,
    ) -> (r: Zobrist)
        requires
            prev_game_state@.phase is Play,
            prev_game_state@.step() < 4,
            new_step < 4,
        ensures
            r.spec_hash() == self.spec_hash() ^ (if prev_game_state@.p1_turn
                != new_p1_turn_to_move {
                spec_player_value()
            } else {
                0u64
            }) ^ (spec_board_fold(prev_game_state@.pb) ^ spec_board_fold(*new_piece_board)) ^ (
            spec_step_value(prev_game_state@.step()) ^ spec_step_value(new_step as int)),
            self.spec_hash() == spec_full_hash(
                prev_game_state@.pb,
                prev_game_state@.p1_turn,
                prev_game_state@.step(),
            ) ==> r.spec_hash() == spec_full_hash(
                *new_piece_board,
                new_p1_turn_to_move,
                new_step as int,
            ),
    {
        let player_to_move_value: u64 = if prev_game_state.is_p1_turn_to_move()
            != new_p1_turn_to_move {
            zvalue_at(1412)
        } else {
            0
        };
        let piece_board_value = board_fold_diff(prev_game_state.piece_board(), new_piece_board);
        let prev_step = prev_game_state.current_step();
        let step_value = zvalue_at(1408 + prev_step as u64) ^ zvalue_at(1408 + new_step as u64);
        let hash = self.hash ^ player_to_move_value ^ piece_board_value ^ step_value;
        proof {
            let i = spec_initial_value();
            let v = spec_player_value();
            let c: u64 = if prev_game_state@.p1_turn {
                0u64
            } else {
                v
            };
            let c2: u64 = if new_p1_turn_to_move {
                0u64
            } else {
                v
            };
            lemma_side_toggle(v);
            lemma_hash_update(
                i,
                c,
                c2,
                player_to_move_value,
                spec_step_value(prev_game_state@.step()),
                spec_step_value(new_step as int),
                spec_board_fold(prev_game_state@.pb),
                spec_board_fold(*new_piece_board),
            );
        }
        Zobrist { hash }
    }
}

/// The push or pull component a turn state adds to the hash.
pub open spec fn spec_push_pull_hash(push_pull_state: PushPullState) -> u64 {
    match push_pull_state {
        PushPullState::MustCompletePush(square, piece) => spec_push_value(square, piece),
        PushPullState::PossiblePull(square, piece) => spec_pull_value(square, piece),
        PushPullState::Free => 0u64,
    }
}

} // verus!
