//! Low-level 64-bit board helpers: fixed masks, single-bit arithmetic and
//! the handful of bit-vector facts the rest of the crate leans on.

use vstd::prelude::*;
use vstd::std_specs::bits::u64_trailing_zeros;

verus! {

/// Row 8, the top row of the board (indices 0..8).
pub const TOP_ROW_MASK: u64 = 0x0000_0000_0000_00FF;

/// Row 1, the bottom row of the board (indices 56..64).
pub const BOTTOM_ROW_MASK: u64 = 0xFF00_0000_0000_0000;

/// Column a (indices divisible by 8).
pub const LEFT_COLUMN_MASK: u64 = 0x0101_0101_0101_0101;

/// Column h.
pub const RIGHT_COLUMN_MASK: u64 = 0x8080_8080_8080_8080;

/// The four trap squares c6, f6, c3 and f3 (indices 18, 21, 42 and 45).
pub const TRAP_MASK: u64 = 0x0000_2400_0024_0000;

/// Rows 1 and 2, filled by the first player during setup.
pub const P1_PLACEMENT_MASK: u64 = 0xFFFF_0000_0000_0000;

/// Rows 7 and 8, filled by the second player during setup.
pub const P2_PLACEMENT_MASK: u64 = 0x0000_0000_0000_FFFF;

/// The square h1, the last setup square the first player fills.
pub const LAST_P1_PLACEMENT_MASK: u64 = 0x8000_0000_0000_0000;

/// The square h8, the last setup square the second player fills.
pub const LAST_P2_PLACEMENT_MASK: u64 = 0x0000_0000_0000_8000;

/// Row 8, the goal row for the first player's rabbits.
pub const P1_OBJECTIVE_MASK: u64 = TOP_ROW_MASK;

/// Row 1, the goal row for the second player's rabbits.
pub const P2_OBJECTIVE_MASK: u64 = BOTTOM_ROW_MASK;

/// True exactly when `b` has a single set bit.
pub open spec fn is_single_bit(b: u64) -> bool {
    b != 0 && b & (b - 1) as u64 == 0
}

/// The index of the lowest set bit of a 128-bit word, or 128 when empty.
pub open spec fn spec_single_bit_index(bit: u128) -> int {
    if (bit & 0xFFFF_FFFF_FFFF_FFFF) as u64 != 0 {
        u64_trailing_zeros((bit & 0xFFFF_FFFF_FFFF_FFFF) as u64) as int
    } else {
        64 + u64_trailing_zeros((bit >> 64) as u64) as int
    }
}

/// The index of the lowest set bit.  For a word with exactly one bit set this
/// is the index of that bit.
pub fn single_bit_index(bit: u128) -> (r: usize)
    ensures
        r == spec_single_bit_index(bit),
{
    let low: u64 = (bit & 0xFFFF_FFFF_FFFF_FFFF) as u64;
    let high: u64 = (bit >> 64) as u64;
    if low != 0 {
        low.trailing_zeros() as usize
    } else {
        64 + high.trailing_zeros() as usize
    }
}

/// The index of the lowest set bit of a 64-bit board, or 64 when empty.
pub fn single_bit_index_u64(bit: u64) -> (r: usize)
    ensures
        r == u64_trailing_zeros(bit),
{
    bit.trailing_zeros() as usize
}

/// The lowest set bit of a non-empty board, as a board.
pub fn first_set_bit(bits: u64) -> (r: u64)
    requires
        bits != 0,
    ensures
        r == 1u64 << u64_trailing_zeros(bits),
        is_single_bit(r),
        r & bits == r,
        u64_trailing_zeros(r) == u64_trailing_zeros(bits),
        ((r - 1) as u64) & bits == 0,
{
    proof {
        lemma_low_bit(bits);
        vstd::std_specs::bits::axiom_u64_trailing_zeros(bits);
        lemma_low_mask_zero(bits, u64_trailing_zeros(bits) as u64);
    }
    1u64 << (bits.trailing_zeros() as u64)
}

/// A word whose bits below `t` are all clear has nothing under the mask
/// `(1 << t) - 1`.
pub proof fn lemma_low_mask_zero(b: u64, t: u64)
    requires
        t <= 64,
        forall|j: u64| j < t ==> #[trigger] (b >> j) & 1u64 == 0u64,
    ensures
        t < 64 ==> (((1u64 << t) - 1) as u64) & b == 0,
        t == 64 ==> b == 0,
    decreases t,
{
    if t == 0 {
        assert((((1u64 << 0u64) - 1) as u64) & b == 0) by (bit_vector);
    } else {
        lemma_low_mask_zero(b, (t - 1) as u64);
        let x = (t - 1) as u64;
        assert((b >> x) & 1u64 == 0u64);
        if t < 64 {
            assert(x < 64 && (b >> x) & 1u64 == 0u64 && (((1u64 << x) - 1) as u64) & b == 0
                ==> (((1u64 << (x + 1) as u64) - 1) as u64) & b == 0) by (bit_vector);
        } else {
            assert(x == 63 && (b >> x) & 1u64 == 0u64 && (((1u64 << x) - 1) as u64) & b == 0 ==> b
                == 0) by (bit_vector);
        }
    }
}

/// A single-bit board equals `1` shifted by its own lowest-bit index.
pub proof fn lemma_single_bit_form(b: u64)
    requires
        is_single_bit(b),
    ensures
        b == 1u64 << u64_trailing_zeros(b),
        u64_trailing_zeros(b) < 64,
{
    vstd::std_specs::bits::axiom_u64_trailing_zeros(b);
    let tz = u64_trailing_zeros(b) as u64;
    assert(b != 0 && b & (b - 1) as u64 == 0 && tz < 64 && (b >> tz) & 1 == 1 ==> b == 1u64
        << tz) by (bit_vector);
}

/// Facts about the lowest set bit `1 << tz(b)` of a non-empty board.
pub proof fn lemma_low_bit(b: u64)
    requires
        b != 0,
    ensures
        is_single_bit(1u64 << u64_trailing_zeros(b)),
        (1u64 << u64_trailing_zeros(b)) & b == 1u64 << u64_trailing_zeros(b),
        u64_trailing_zeros(1u64 << u64_trailing_zeros(b)) == u64_trailing_zeros(b),
{
    vstd::std_specs::bits::axiom_u64_trailing_zeros(b);
    let tz = u64_trailing_zeros(b) as u64;
    let p = 1u64 << tz;
    assert(tz < 64 && (b >> tz) & 1 == 1 ==> (1u64 << tz) != 0 && (1u64 << tz) & ((1u64 << tz)
        - 1) as u64 == 0 && (1u64 << tz) & b == (1u64 << tz)) by (bit_vector);
    assert((tz < 64 ==> ((1u64 << tz) >> tz) & 1 == 1) && (forall|j: u64|
        j < tz && tz < 64 ==> #[trigger] ((1u64 << tz) >> j) & 1u64 == 0u64)) by (bit_vector);
    vstd::std_specs::bits::axiom_u64_trailing_zeros(p);
    let tzp = u64_trailing_zeros(p) as u64;
    if tzp < tz {
        assert((p >> tzp) & 1u64 == 0u64);
        assert((p >> tzp) & 1u64 == 1u64);
    }
    if tzp > tz {
        assert((p >> tz) & 1u64 == 0u64);
    }
}

/// `1 << i` is a single-bit board whose lowest-bit index is `i`.
pub proof fn lemma_shl_single_bit(i: u64)
    requires
        i < 64,
    ensures
        is_single_bit(1u64 << i),
        u64_trailing_zeros(1u64 << i) == i,
{
    lemma_shl_bit_facts(i);
    lemma_single_bit_form(1u64 << i);
    let t = u64_trailing_zeros(1u64 << i) as u64;
    assert(i < 64 && t < 64 && (1u64 << i) == (1u64 << t) ==> t == i) by (bit_vector);
}

/// Clearing the lowest set bit strictly shrinks the board.
pub proof fn lemma_clear_low_bit(b: u64)
    requires
        b != 0,
    ensures
        b ^ (1u64 << u64_trailing_zeros(b)) < b,
        b ^ (1u64 << u64_trailing_zeros(b)) == b & !(1u64 << u64_trailing_zeros(b)),
{
    vstd::std_specs::bits::axiom_u64_trailing_zeros(b);
    let tz = u64_trailing_zeros(b) as u64;
    assert(tz < 64 && (b >> tz) & 1 == 1 ==> (b ^ (1u64 << tz)) < b && (b ^ (1u64 << tz)) == b
        & !(1u64 << tz)) by (bit_vector);
}

/// The plain identities of the word operations that the proofs lean on
/// everywhere: the units and annihilators of each operation, and the
/// single-bit value table of exclusive-or.
pub proof fn lemma_word_trivia(a: u64, b: u64, c: u64)
    by (bit_vector)
    ensures
        a ^ 0 == a,
        (0u64 ^ a) == a,
        a ^ a == 0,
        a & !0u64 == a,
        !0u64 & a == a,
        a | 0 == a,
        (0u64 | a) == a,
        0u64 & a == 0,
        a & 0 == 0,
        a & b == b & a,
        (0u64 >> b) == 0,
        (0u64 << b) == 0,
        1u64 ^ 1u64 == 0u64,
        1u64 ^ 0u64 == 1u64,
        (0u64 ^ 1u64) == 1u64,
        (0u64 ^ 0u64) == 0u64,
        a & (!b & c) == a ==> a & b == 0,
        forall|j: u64| #[trigger] ((0u64 >> j) & 1u64) == 0u64,
{
}

/// How clearing one bit changes a word, bit by bit: every other bit
/// keeps its value and the cleared bit reads zero.
pub proof fn lemma_clear_bit_facts(b: u64, i: u64)
    by (bit_vector)
    requires
        i < 64,
    ensures
        forall|j: u64|
            j < 64 && j != i ==> #[trigger] ((b & !(1u64 << i)) >> j) & 1u64 == (b >> j) & 1u64,
        ((b & !(1u64 << i)) >> i) & 1u64 == 0u64,
{
}

/// Exclusive-or works bit by bit, and a masked bit reads zero or one.
pub proof fn lemma_xor_bit_pointwise(x: u64, y: u64)
    by (bit_vector)
    ensures
        forall|j: u64|
            j < 64 ==> #[trigger] ((x ^ y) >> j) & 1u64 == ((x >> j) & 1u64) ^ ((y >> j) & 1u64),
        forall|j: u64| ((x >> j) & 1u64 == 0u64) || ((#[trigger] (x >> j)) & 1u64 == 1u64),
        forall|j: u64| ((y >> j) & 1u64 == 0u64) || ((#[trigger] (y >> j)) & 1u64 == 1u64),
{
}

/// The bits of the single-bit word `1 << i`.
pub proof fn lemma_shl_bit_facts(i: u64)
    by (bit_vector)
    requires
        i < 64,
    ensures
        ((1u64 << i) >> i) & 1u64 == 1u64,
        forall|j: u64| j < i ==> #[trigger] ((1u64 << i) >> j) & 1u64 == 0u64,
        (1u64 << i) & !(1u64 << i) == 0,
        (1u64 << i) != 0,
        (1u64 << i) & (((1u64 << i) - 1) as u64) == 0,
{
}

/// The group laws of exclusive-or on 64-bit words.
pub proof fn lemma_xor_laws()
    by (bit_vector)
    ensures
        forall|a: u64, b: u64| #[trigger] (a ^ b) == b ^ a,
        forall|a: u64, b: u64, c: u64| #[trigger] ((a ^ b) ^ c) == a ^ (b ^ c),
        forall|a: u64| #[trigger] (a ^ 0) == a,
        forall|a: u64| #[trigger] (a ^ a) == 0,
{
}

} // verus!
