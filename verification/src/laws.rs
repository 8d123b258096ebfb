//! The engine's standing guarantees, stated on their own: what holds of
//! every reachable position, and how the committed operations relate.

use vstd::prelude::*;
use crate::board::{spec_trapped_bits, PieceBoardState};
use crate::direction::Direction;
use crate::action::Action;
use crate::game::{spec_pass_step, spec_transposition_hash, PhaseModel, PushPullState, StateModel};

verus! {

/// Every reachable position keeps its boards in shape: the six piece
/// boards are pairwise disjoint, their union is `all_pieces`, the
/// ownership mask lies inside `all_pieces`, and no piece stands
/// unsupported on a trap square.  `GameState::initial` establishes this
/// shape and `GameState::take_action` preserves it.
pub proof fn lemma_board_invariants(m: StateModel)
    requires
        m.wf(),
    ensures
        m.pb.disjoint_wf(),
        m.pb.all_pieces == m.pb.elephants | m.pb.camels | m.pb.horses | m.pb.dogs | m.pb.cats
            | m.pb.rabbits,
        m.pb.p1_pieces & !m.pb.all_pieces == 0,
        spec_trapped_bits(m.pb) == 0,
{
    match m.phase {
        PhaseModel::Place => {
            crate::board::lemma_setup_rows_no_traps(m.pb);
        },
        PhaseModel::Play(_) => {},
    }
}

/// The transposition hash is a function of the position alone: two
/// reachable states with the same boards, side to move, step number and
/// push/pull obligation hash alike, however they were built.
pub proof fn lemma_transposition_hash_stable(a: StateModel, b: StateModel)
    requires
        a.wf(),
        b.wf(),
        a.phase is Play,
        b.phase is Play,
        a.pb == b.pb,
        a.p1_turn == b.p1_turn,
        a.step() == b.step(),
        a.phase->Play_0.pps == b.phase->Play_0.pps,
    ensures
        spec_transposition_hash(a) == spec_transposition_hash(b),
{
}

/// Passing flips the side to move, and raises the move number exactly
/// when the second player's move was the one committed.
pub proof fn lemma_pass_law(m: StateModel)
    requires
        m.wf(),
        m.phase is Play,
    ensures
        spec_pass_step(m).p1_turn == !m.p1_turn,
        spec_pass_step(m).move_number == m.move_number + (if m.p1_turn {
            0int
        } else {
            1int
        }),
        spec_pass_step(m).pb == m.pb,
        spec_pass_step(m).step() == 0,
{
}

/// The repetition filter keeps nothing exactly when every listed action
/// is passing-like.
proof fn lemma_filter_empty_iff(m: StateModel, s: Seq<Action>)
    ensures
        crate::game::spec_filter_passing(m, s).len() == 0 <==> (forall|i: int|
            0 <= i < s.len() ==> crate::game::spec_is_passing_like(m, #[trigger] s[i])),
    decreases s.len(),
{
    if s.len() != 0 {
        lemma_filter_empty_iff(m, s.drop_last());
        if crate::game::spec_filter_passing(m, s).len() == 0 {
            assert forall|i: int|
                0 <= i < s.len() implies crate::game::spec_is_passing_like(
                m,
                #[trigger] s[i],
            ) by {
                if i < s.len() - 1 {
                    assert(s.drop_last()[i] == s[i]);
                }
            }
        } else {
            if forall|i: int|
                0 <= i < s.len() ==> crate::game::spec_is_passing_like(m, #[trigger] s[i]) {
                assert(forall|i: int|
                    0 <= i < s.drop_last().len() ==> crate::game::spec_is_passing_like(
                        m,
                        #[trigger] s.drop_last()[i],
                    ));
                assert(crate::game::spec_is_passing_like(m, s.last()));
            }
        }
    }
}

/// Appending a pull candidate never shortens the list.
proof fn lemma_with_pulls_len(m: StateModel, acc: Seq<Action>)
    ensures
        crate::game::spec_with_pulls(m, acc).len() >= acc.len(),
        acc.len() == 0 ==> crate::game::spec_with_pulls(m, acc)
            == crate::game::spec_with_pulls(m, Seq::<Action>::empty()),
{
    if acc.len() == 0 {
        assert(acc =~= Seq::<Action>::empty());
    }
}

/// What the pull extension adds: it keeps its input as a prefix, every
/// element of the result comes from the input or is one of the four
/// pull candidates, and every pull candidate is present in the result.
proof fn lemma_with_pulls_shape(m: StateModel, acc: Seq<Action>)
    requires
        m.phase is Play,
        m.phase->Play_0.pps matches PushPullState::PossiblePull(_, _),
    ensures
        ({
            let w = crate::game::spec_with_pulls(m, acc);
            let sq = m.phase->Play_0.pps->PossiblePull_0;
            let piece = m.phase->Play_0.pps->PossiblePull_1;
            &&& w.len() >= acc.len()
            &&& (forall|i: int| 0 <= i < acc.len() ==> #[trigger] w[i] == acc[i])
            &&& (forall|i: int|
                0 <= i < w.len() ==> acc.contains(#[trigger] w[i]) || Some(w[i])
                    == crate::game::spec_pull_candidate(m, sq, piece, Direction::Up) || Some(w[i])
                    == crate::game::spec_pull_candidate(m, sq, piece, Direction::Right) || Some(
                    w[i],
                ) == crate::game::spec_pull_candidate(m, sq, piece, Direction::Down) || Some(w[i])
                    == crate::game::spec_pull_candidate(m, sq, piece, Direction::Left))
            &&& (forall|a: Action|
                (Some(a) == crate::game::spec_pull_candidate(m, sq, piece, Direction::Up) || Some(
                    a,
                ) == crate::game::spec_pull_candidate(m, sq, piece, Direction::Right) || Some(a)
                    == crate::game::spec_pull_candidate(m, sq, piece, Direction::Down) || Some(a)
                    == crate::game::spec_pull_candidate(m, sq, piece, Direction::Left))
                    ==> w.contains(a))
        }),
{
    let sq = m.phase->Play_0.pps->PossiblePull_0;
    let piece = m.phase->Play_0.pps->PossiblePull_1;
    let c0 = crate::game::spec_pull_candidate(m, sq, piece, Direction::Up);
    let c1 = crate::game::spec_pull_candidate(m, sq, piece, Direction::Right);
    let c2 = crate::game::spec_pull_candidate(m, sq, piece, Direction::Down);
    let c3 = crate::game::spec_pull_candidate(m, sq, piece, Direction::Left);
    let a0 = crate::game::spec_push_unique(acc, c0);
    let a1 = crate::game::spec_push_unique(a0, c1);
    let a2 = crate::game::spec_push_unique(a1, c2);
    let a3 = crate::game::spec_push_unique(a2, c3);
    lemma_push_unique_shape(acc, c0);
    lemma_push_unique_shape(a0, c1);
    lemma_push_unique_shape(a1, c2);
    lemma_push_unique_shape(a2, c3);
    assert(a3 == crate::game::spec_with_pulls(m, acc));
}

/// One conditional append: the input is a prefix, the one new element
/// (if any) is the candidate, and the candidate ends up present.
proof fn lemma_push_unique_shape(acc: Seq<Action>, c: Option<Action>)
    ensures
        ({
            let w = crate::game::spec_push_unique(acc, c);
            &&& w.len() >= acc.len()
            &&& (forall|i: int| 0 <= i < acc.len() ==> #[trigger] w[i] == acc[i])
            &&& (forall|i: int|
                0 <= i < w.len() ==> acc.contains(#[trigger] w[i]) || Some(w[i]) == c)
            &&& (c matches Some(a) ==> w.contains(a))
            &&& (forall|a: Action| acc.contains(a) ==> #[trigger] w.contains(a))
        }),
{
    let w = crate::game::spec_push_unique(acc, c);
    match c {
        Some(a) => {
            if acc.contains(a) {
            } else {
                assert(w == acc.push(a));
                assert(w[acc.len() as int] == a);
                assert(w.contains(a));
                assert forall|x: Action| acc.contains(x) implies #[trigger] w.contains(x) by {
                    let i = choose|i: int| 0 <= i < acc.len() && acc[i] == x;
                    assert(w[i] == x);
                }
                assert forall|i: int|
                    0 <= i < w.len() implies acc.contains(#[trigger] w[i]) || Some(w[i]) == c by {
                    if i < acc.len() {
                        assert(acc[i] == w[i]);
                        assert(acc.contains(w[i]));
                    }
                }
            }
        },
        None => {},
    }
}

/// The side to move is out of moves exactly when the action list is
/// empty.
pub proof fn lemma_stuck_iff_no_actions(m: StateModel)
    requires
        m.wf(),
        m.phase is Play,
    ensures
        crate::game::spec_valid_actions(m, true).len() == 0 <==> !crate::game::spec_has_move(m),
{
    let p = m.phase->Play_0;
    if !(p.pps is MustCompletePush) && crate::game::spec_filter_applies(m) {
        lemma_stuck_iff_no_actions_filtered(m);
    } else {
        lemma_stuck_iff_no_actions_plain(m);
    }
}

/// The filtered case: on the final step of an untrapping move, the
/// surviving actions run out exactly when every generator's offering is
/// passing-like and passing itself is barred.
proof fn lemma_stuck_iff_no_actions_filtered(m: StateModel)
    requires
        m.wf(),
        m.phase is Play,
        !(m.phase->Play_0.pps is MustCompletePush),
        crate::game::spec_filter_applies(m),
    ensures
        crate::game::spec_valid_actions(m, true).len() == 0 <==> !crate::game::spec_has_move(m),
{
    let p = m.phase->Play_0;
    let pushes = crate::game::spec_push_moves(m);
    let pulls = crate::game::spec_with_pulls(m, pushes);
    let pulls0 = crate::game::spec_with_pulls(m, Seq::<Action>::empty());
    let ordinary = crate::game::spec_ordinary_moves(m);
    let with_ordinary = pulls + ordinary;
    let can_pass = crate::game::spec_can_pass(m, true);
    let base = if can_pass {
        with_ordinary.push(Action::Pass)
    } else {
        with_ordinary
    };
    assert(crate::game::spec_valid_actions(m, true) == crate::game::spec_filter_passing(m, base));
    lemma_filter_empty_iff(m, base);
    lemma_with_pulls_len(m, pushes);
    if p.pps matches PushPullState::PossiblePull(_, _) {
        lemma_with_pulls_shape(m, pushes);
        lemma_with_pulls_shape(m, Seq::<Action>::empty());
    } else {
        assert(pulls == pushes);
        assert(pulls0 =~= Seq::<Action>::empty());
    }
    if crate::game::spec_filter_passing(m, base).len() == 0 {
        // Everything offered is passing-like, so no generator escapes.
        assert(!can_pass) by {
            if can_pass {
                assert(base[base.len() - 1] == Action::Pass);
                assert(!crate::game::spec_is_passing_like(m, Action::Pass));
            }
        }
        assert(!crate::game::spec_has_non_passing_like(m, ordinary)) by {
            if crate::game::spec_has_non_passing_like(m, ordinary) {
                let i = choose|i: int|
                    0 <= i < ordinary.len() && !crate::game::spec_is_passing_like(m, ordinary[i]);
                assert(base[pulls.len() + i] == ordinary[i]);
            }
        }
        assert(!crate::game::spec_has_non_passing_like(m, pushes)) by {
            if crate::game::spec_has_non_passing_like(m, pushes) {
                let i = choose|i: int|
                    0 <= i < pushes.len() && !crate::game::spec_is_passing_like(m, pushes[i]);
                assert(pulls[i] == pushes[i]);
                assert(base[i] == pushes[i]);
            }
        }
        assert(!crate::game::spec_has_non_passing_like(m, pulls0)) by {
            if crate::game::spec_has_non_passing_like(m, pulls0) {
                let i = choose|i: int|
                    0 <= i < pulls0.len() && !crate::game::spec_is_passing_like(m, pulls0[i]);
                let a = pulls0[i];
                assert(pulls.contains(a));
                let j = choose|j: int| 0 <= j < pulls.len() && pulls[j] == a;
                assert(base[j] == a);
            }
        }
        assert(!crate::game::spec_has_move(m));
    } else {
        // Some offered action survives the filter; find its generator.
        let i = choose|i: int|
            0 <= i < base.len() && !crate::game::spec_is_passing_like(m, #[trigger] base[i]);
        let a = base[i];
        if can_pass {
            assert(crate::game::spec_has_move(m));
        } else {
            assert(base == with_ordinary);
            if i >= pulls.len() {
                assert(ordinary[i - pulls.len()] == a);
                assert(crate::game::spec_has_non_passing_like(m, ordinary));
            } else {
                assert(pulls[i] == a);
                if pushes.contains(a) {
                    let j = choose|j: int| 0 <= j < pushes.len() && pushes[j] == a;
                    assert(crate::game::spec_has_non_passing_like(m, pushes));
                } else {
                    assert(pulls0.contains(a));
                    let j = choose|j: int| 0 <= j < pulls0.len() && pulls0[j] == a;
                    assert(crate::game::spec_has_non_passing_like(m, pulls0));
                }
            }
            assert(crate::game::spec_has_move(m));
        }
    }
}

/// The unfiltered and push-completion cases.
proof fn lemma_stuck_iff_no_actions_plain(m: StateModel)
    requires
        m.wf(),
        m.phase is Play,
        m.phase->Play_0.pps is MustCompletePush || !crate::game::spec_filter_applies(m),
    ensures
        crate::game::spec_valid_actions(m, true).len() == 0 <==> !crate::game::spec_has_move(m),
{
    let p = m.phase->Play_0;
    if p.pps is MustCompletePush {
        let mca = crate::game::spec_must_complete_actions(m);
        if crate::game::spec_filter_applies(m) {
            lemma_filter_empty_iff(m, mca);
            assert(crate::game::spec_valid_actions(m, true)
                == crate::game::spec_filter_passing(m, mca));
        } else {
            assert(crate::game::spec_valid_actions(m, true) == mca);
        }
    } else {
        let pushes = crate::game::spec_push_moves(m);
        let pulls = crate::game::spec_with_pulls(m, pushes);
        let ordinary = crate::game::spec_ordinary_moves(m);
        let with_ordinary = pulls + ordinary;
        let can_pass = crate::game::spec_can_pass(m, true);
        let base = if can_pass {
            with_ordinary.push(Action::Pass)
        } else {
            with_ordinary
        };
        assert(crate::game::spec_valid_actions(m, true) == base);
        lemma_with_pulls_len(m, pushes);
        if base.len() == 0 {
            assert(!can_pass);
            assert(pulls.len() == 0);
            assert(ordinary.len() == 0);
            assert(pushes.len() == 0);
            assert(pushes =~= Seq::<Action>::empty());
            assert(crate::game::spec_with_pulls(m, Seq::<Action>::empty()).len() == 0);
            assert(!crate::game::spec_has_move(m));
        } else {
            if can_pass {
                assert(crate::game::spec_has_move(m));
            } else {
                assert(base == with_ordinary);
                if ordinary.len() != 0 {
                    assert(crate::game::spec_has_non_passing_like(m, ordinary));
                } else if pushes.len() != 0 {
                    assert(crate::game::spec_has_non_passing_like(m, pushes));
                } else {
                    assert(pushes =~= Seq::<Action>::empty());
                    assert(pulls == crate::game::spec_with_pulls(m, Seq::<Action>::empty()));
                    assert(pulls.len() != 0);
                    assert(crate::game::spec_has_non_passing_like(m, pulls));
                }
                assert(crate::game::spec_has_move(m));
            }
        }
    }
}

/// Out of moves at the turn boundary without a decided goal or rabbit
/// race, or mid-turn: the game is over exactly when no action remains.
pub proof fn lemma_terminal_iff_no_actions(m: StateModel)
    requires
        m.wf(),
        m.phase is Play,
        m.step() == 0 ==> crate::game::spec_rabbit_at_goal(m) is None
            && crate::game::spec_lost_all_rabbits(m) is None,
    ensures
        crate::game::spec_valid_actions(m, true).len() == 0 <==> crate::game::spec_is_terminal(m)
            is Some,
{
    lemma_stuck_iff_no_actions(m);
}

/// A step in one direction undone by the opposite step restores the
/// boards, provided neither step triggers the trap sweep.  With traps
/// involved the round trip is not a no-op in general.
pub proof fn lemma_move_and_back(pb: PieceBoardState, src: u64, direction: Direction)
    requires
        pb.disjoint_wf(),
        crate::bits::is_single_bit(src),
        src & crate::board::spec_edge_mask(direction) == 0,
        crate::board::spec_shift_raw(src, direction) & pb.all_pieces == 0,
        src & pb.all_pieces != 0,
        spec_trapped_bits(pb.spec_move_all(src, direction)) == 0,
        spec_trapped_bits(
            pb.spec_move_all(src, direction).spec_move_all(
                crate::board::spec_shift_raw(src, direction),
                direction.spec_opposite(),
            ),
        ) == 0,
    ensures
        pb.spec_after_move(src, direction).spec_after_move(
            crate::board::spec_shift_raw(src, direction),
            direction.spec_opposite(),
        ) == pb,
{
    let dst = crate::board::spec_shift_raw(src, direction);
    let moved = pb.spec_move_all(src, direction);
    lemma_clear_trapped_zero(moved);
    let back = moved.spec_move_all(dst, direction.spec_opposite());
    lemma_clear_trapped_zero(back);
    crate::game::lemma_shift_stays_on_board(src, direction);
    crate::board::lemma_dst_free(
        pb.elephants,
        pb.camels,
        pb.horses,
        pb.dogs,
        pb.cats,
        pb.rabbits,
        pb.p1_pieces,
        pb.all_pieces,
        dst,
    );
    match direction {
        Direction::Up => {
            lemma_mv_roundtrip_shr(pb.p1_pieces, src, 8);
            lemma_mv_roundtrip_shr(pb.all_pieces, src, 8);
            lemma_mv_roundtrip_shr(pb.elephants, src, 8);
            lemma_mv_roundtrip_shr(pb.camels, src, 8);
            lemma_mv_roundtrip_shr(pb.horses, src, 8);
            lemma_mv_roundtrip_shr(pb.dogs, src, 8);
            lemma_mv_roundtrip_shr(pb.cats, src, 8);
            lemma_mv_roundtrip_shr(pb.rabbits, src, 8);
        },
        Direction::Left => {
            lemma_mv_roundtrip_shr(pb.p1_pieces, src, 1);
            lemma_mv_roundtrip_shr(pb.all_pieces, src, 1);
            lemma_mv_roundtrip_shr(pb.elephants, src, 1);
            lemma_mv_roundtrip_shr(pb.camels, src, 1);
            lemma_mv_roundtrip_shr(pb.horses, src, 1);
            lemma_mv_roundtrip_shr(pb.dogs, src, 1);
            lemma_mv_roundtrip_shr(pb.cats, src, 1);
            lemma_mv_roundtrip_shr(pb.rabbits, src, 1);
        },
        Direction::Down => {
            lemma_mv_roundtrip_shl(pb.p1_pieces, src, 8);
            lemma_mv_roundtrip_shl(pb.all_pieces, src, 8);
            lemma_mv_roundtrip_shl(pb.elephants, src, 8);
            lemma_mv_roundtrip_shl(pb.camels, src, 8);
            lemma_mv_roundtrip_shl(pb.horses, src, 8);
            lemma_mv_roundtrip_shl(pb.dogs, src, 8);
            lemma_mv_roundtrip_shl(pb.cats, src, 8);
            lemma_mv_roundtrip_shl(pb.rabbits, src, 8);
        },
        Direction::Right => {
            lemma_mv_roundtrip_shl(pb.p1_pieces, src, 1);
            lemma_mv_roundtrip_shl(pb.all_pieces, src, 1);
            lemma_mv_roundtrip_shl(pb.elephants, src, 1);
            lemma_mv_roundtrip_shl(pb.camels, src, 1);
            lemma_mv_roundtrip_shl(pb.horses, src, 1);
            lemma_mv_roundtrip_shl(pb.dogs, src, 1);
            lemma_mv_roundtrip_shl(pb.cats, src, 1);
            lemma_mv_roundtrip_shl(pb.rabbits, src, 1);
        },
    }
}

/// With nothing trapped, the sweep leaves the boards alone.
proof fn lemma_clear_trapped_zero(pb: PieceBoardState)
    requires
        spec_trapped_bits(pb) == 0,
    ensures
        pb.spec_clear(spec_trapped_bits(pb)) == pb,
{
    crate::bits::lemma_word_trivia(pb.p1_pieces, 0, 0);
    crate::bits::lemma_word_trivia(pb.all_pieces, 0, 0);
    crate::bits::lemma_word_trivia(pb.elephants, 0, 0);
    crate::bits::lemma_word_trivia(pb.camels, 0, 0);
    crate::bits::lemma_word_trivia(pb.horses, 0, 0);
    crate::bits::lemma_word_trivia(pb.dogs, 0, 0);
    crate::bits::lemma_word_trivia(pb.cats, 0, 0);
    crate::bits::lemma_word_trivia(pb.rabbits, 0, 0);
}

/// Moving a single bit right by a word shift and back restores the word.
proof fn lemma_mv_roundtrip_shr(x: u64, src: u64, k: u64)
    by (bit_vector)
    requires
        src != 0,
        src & ((src - 1) as u64) == 0,
        (src >> k) != 0,
        (src >> k) & x == 0,
    ensures
        ((((((x & src) >> k) | (x & !src)) & (src >> k)) << k) | ((((x & src) >> k) | (x & !src))
            & !(src >> k))) == x,
{
}

/// Moving a single bit left by a word shift and back restores the word.
proof fn lemma_mv_roundtrip_shl(x: u64, src: u64, k: u64)
    by (bit_vector)
    requires
        src != 0,
        src & ((src - 1) as u64) == 0,
        (src << k) != 0,
        (src << k) & x == 0,
    ensures
        ((((((x & src) << k) | (x & !src)) & (src << k)) >> k) | ((((x & src) << k) | (x & !src))
            & !(src << k))) == x,
{
}

} // verus!
