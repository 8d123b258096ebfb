//! Whole-move notation: writing a sequence of step actions as one move
//! string, and reading a move string back into actions.

use vstd::prelude::*;
use itertools::Itertools;
use crate::action::Action;
use crate::board::spec_piece_at;
use crate::direction::Direction;
use crate::display::ParseError;
use crate::game::{
    spec_action_applicable, spec_take_action, spec_trapped_animal_for_action, GameState,
    StateModel,
};
use crate::piece::Piece;
use crate::square::Square;

verus! {

/// The parts joined with single spaces: empty for no parts, the parts
/// with one space between each otherwise.
pub open spec fn spec_join_spaced(parts: Seq<Seq<char>>) -> Seq<char>
    decreases parts.len(),
{
    if parts.len() == 0 {
        Seq::<char>::empty()
    } else if parts.len() == 1 {
        parts[0]
    } else {
        spec_join_spaced(parts.drop_last()) + seq![' '] + parts.last()
    }
}

/// Relies on itertools' `join`: an empty iterator yields the empty
/// string, and otherwise the elements are written out with the separator
/// between each neighbouring pair.
#[verifier::external_body]
fn join_spaced(parts: &Vec<String>) -> (r: String)
    ensures
        r@ == spec_join_spaced(parts@.map_values(|p: String| p@)),
{
    parts.iter().join(" ")
}

/// Whether every action in the list can be applied in turn from the
/// given state.
pub open spec fn spec_actions_applicable(m: StateModel, actions: Seq<Action>) -> bool
    decreases actions.len(),
{
    actions.len() == 0 || (spec_action_applicable(m, actions[0]) && spec_actions_applicable(
        spec_take_action(m, actions[0]),
        actions.drop_first(),
    ))
}

/// The notation parts one action contributes: the moved or placed
/// piece's letter with its square (and direction for a step), followed
/// by a capture marker when the step traps an animal.  A pass adds
/// nothing.
pub open spec fn spec_action_parts(m: StateModel, action: Action) -> Seq<Seq<char>> {
    match action {
        Action::Move(square, direction) => {
            let src = 1u64 << square.0;
            let piece = spec_piece_at(src, m.pb);
            let is_p1 = src & m.pb.p1_pieces != 0;
            let step_part = seq![piece.spec_to_char(is_p1), square.spec_column_char(), square.spec_row_char(), direction.spec_to_char()];
            match spec_trapped_animal_for_action(m, action) {
                Some((tsq, tpiece, tis_p1)) => seq![step_part, seq![tpiece.spec_to_char(tis_p1), tsq.spec_column_char(), tsq.spec_row_char(), 'x']],
                None => seq![step_part],
            }
        },
        Action::Place(piece) => {
            let bit = m.pb.spec_placement_bit();
            let sq = Square(vstd::std_specs::bits::u64_trailing_zeros(bit) as u8);
            seq![seq![piece.spec_to_char(m.p1_turn), sq.spec_column_char(), sq.spec_row_char()]]
        },
        Action::Pass => Seq::<Seq<char>>::empty(),
    }
}

/// The notation parts of a whole action sequence, with an empty part
/// inserted wherever the turn passes between the players mid-sequence.
pub open spec fn spec_move_parts(m: StateModel, actions: Seq<Action>) -> Seq<Seq<char>>
    decreases actions.len(),
{
    if actions.len() == 0 {
        Seq::<Seq<char>>::empty()
    } else {
        let m2 = spec_take_action(m, actions[0]);
        spec_action_parts(m, actions[0]) + (if actions.len() > 1 && m2.p1_turn != m.p1_turn {
            seq![Seq::<char>::empty()]
        } else {
            Seq::<Seq<char>>::empty()
        }) + spec_move_parts(m2, actions.drop_first())
    }
}

/// Writes a sequence of actions from a position as one move string:
/// each step named with its piece letter, captures marked with `x`, and
/// a double space between the two players' moves.
#[verifier::rlimit(100)]
pub fn convert_actions_to_move_string(game_state: GameState, actions: &[Action]) -> (r: String)
    requires
        game_state@.wf(),
        spec_actions_applicable(game_state@, actions@),
        game_state@.move_number + actions@.len() + 1 <= usize::MAX,
    ensures
        r@ == spec_join_spaced(spec_move_parts(game_state@, actions@)),
{
    let ghost m0 = game_state@;
    let mut game_state = game_state;
    let mut actions_as_string: Vec<String> = Vec::new();
    let mut i: usize = 0;
    proof {
        reveal_strlit("x");
        assert(actions@.subrange(0, actions@.len() as int) =~= actions@);
        assert(actions_as_string@.map_values(|p: String| p@) =~= Seq::<Seq<char>>::empty());
    }
    while i < actions.len()
        invariant
            i <= actions@.len(),
            game_state@.wf(),
            spec_actions_applicable(game_state@, actions@.subrange(i as int, actions@.len() as int)),
            game_state@.move_number + (actions@.len() - i) + 1 <= usize::MAX,
            spec_move_parts(m0, actions@) == actions_as_string@.map_values(|p: String| p@)
                + spec_move_parts(
                game_state@,
                actions@.subrange(i as int, actions@.len() as int),
            ),
        decreases actions@.len() - i,
    {
        let ghost mcur = game_state@;
        let ghost rest = actions@.subrange(i as int, actions@.len() as int);
        proof {
            assert(rest[0] == actions@[i as int]);
            assert(rest.drop_first() =~= actions@.subrange(i + 1, actions@.len() as int));
        }
        let action = actions[i];
        match action {
            Action::Move(square, direction) => {
                let piece_board = game_state.piece_board();
                let square_bit = square.as_bit_board();
                let piece = crate::board::piece_type_at_bit(square_bit, piece_board);
                let is_p1_piece = square_bit & piece_board.p1_pieces != 0;
                let mut part: Vec<char> = Vec::new();
                part.push(piece.to_char(is_p1_piece));
                let (c0, c1) = square.to_chars();
                part.push(c0);
                part.push(c1);
                part.push(direction.to_char());
                proof {
                    assert(part@ =~= seq![
                        spec_piece_at(1u64 << square.0, mcur.pb).spec_to_char(
                            (1u64 << square.0) & mcur.pb.p1_pieces != 0,
                        ),
                        square.spec_column_char(),
                        square.spec_row_char(),
                        direction.spec_to_char(),
                    ]);
                }
                actions_as_string.push(chars_to_string(&part));
                match game_state.trapped_animal_for_action(&action) {
                    Some((tsq, tpiece, tis_p1)) => {
                        let mut tpart: Vec<char> = Vec::new();
                        tpart.push(tpiece.to_char(tis_p1));
                        let (t0, t1) = tsq.to_chars();
                        tpart.push(t0);
                        tpart.push(t1);
                        tpart.push('x');
                        proof {
                            assert(tsq.wf());
                            assert(tpart@ =~= seq![
                                tpiece.spec_to_char(tis_p1),
                                tsq.spec_column_char(),
                                tsq.spec_row_char(),
                                'x',
                            ]);
                        }
                        actions_as_string.push(chars_to_string(&tpart));
                    },
                    None => {},
                }
            },
            Action::Place(piece) => {
                let piece_board = game_state.piece_board();
                let placement_bit = piece_board.placement_bit();
                let sq = Square::from_bit_board(placement_bit);
                let mut part: Vec<char> = Vec::new();
                part.push(piece.to_char(game_state.is_p1_turn_to_move()));
                let (c0, c1) = sq.to_chars();
                part.push(c0);
                part.push(c1);
                proof {
                    assert(part@ =~= seq![
                        piece.spec_to_char(mcur.p1_turn),
                        sq.spec_column_char(),
                        sq.spec_row_char(),
                    ]);
                }
                actions_as_string.push(chars_to_string(&part));
            },
            Action::Pass => {},
        }
        let was_p1_move = game_state.is_p1_turn_to_move();
        game_state = game_state.take_action(&action);
        let is_p1_move = game_state.is_p1_turn_to_move();
        if i + 1 < actions.len() && is_p1_move != was_p1_move {
            actions_as_string.push(String::new());
        }
        i = i + 1;
        proof {
            assert(spec_move_parts(m0, actions@) =~= actions_as_string@.map_values(
                |p: String| p@,
            ) + spec_move_parts(
                game_state@,
                actions@.subrange(i as int, actions@.len() as int),
            ));
        }
    }
    proof {
        assert(actions@.subrange(actions@.len() as int, actions@.len() as int)
            =~= Seq::<Action>::empty());
        assert(spec_move_parts(m0, actions@) =~= actions_as_string@.map_values(|p: String| p@));
    }
    join_spaced(&actions_as_string)
}

/// Builds a string from characters.
fn chars_to_string(chars: &Vec<char>) -> (r: String)
    ensures
        r@ == chars@,
{
    proof {
        reveal_strlit("E");
        reveal_strlit("M");
        reveal_strlit("H");
        reveal_strlit("D");
        reveal_strlit("C");
        reveal_strlit("R");
        reveal_strlit("e");
        reveal_strlit("m");
        reveal_strlit("h");
        reveal_strlit("d");
        reveal_strlit("c");
        reveal_strlit("r");
    }
    let mut out = String::new();
    let mut i: usize = 0;
    while i < chars.len()
        invariant
            i <= chars@.len(),
            out@ == chars@.subrange(0, i as int),
        decreases chars@.len() - i,
    {
        push_char(&mut out, chars[i]);
        i = i + 1;
        proof {
            assert(out@ =~= chars@.subrange(0, i as int));
        }
    }
    proof {
        assert(chars@.subrange(0, chars@.len() as int) =~= chars@);
    }
    out
}

/// Relies on String's `push`: appending one character to the end.
#[verifier::external_body]
fn push_char(out: &mut String, c: char)
    ensures
        final(out)@ == old(out)@ + seq![c],
{
    out.push(c);
}

/// The tokens of a move string: the space-separated words, with the
/// capture markers (words holding an `x`) dropped.
pub open spec fn spec_tokens(s: Seq<char>) -> Seq<Seq<char>>
    decreases s.len(),
{
    spec_tokens_from(s, 0, s.len() as int)
}

/// The `' '`-separated words of `s`, scanning from `i`, taking the word
/// boundaries as the spaces.
pub open spec fn spec_tokens_from(s: Seq<char>, i: int, n: int) -> Seq<Seq<char>>
    decreases n - i via spec_tokens_from_decreases
{
    if i > n {
        Seq::<Seq<char>>::empty()
    } else {
        let j = spec_word_end(s, i, n);
        if j >= n {
            seq![s.subrange(i, n)]
        } else {
            seq![s.subrange(i, j)] + spec_tokens_from(s, j + 1, n)
        }
    }
}

#[via_fn]
proof fn spec_tokens_from_decreases(s: Seq<char>, i: int, n: int) {
    if 0 <= i && i <= n {
        lemma_word_end_bounds(s, i, n);
    } else if i <= n {
        assert(spec_word_end(s, i, n) == n);
    }
}

/// The next space lies at or past the scan point.
proof fn lemma_word_end_bounds(s: Seq<char>, i: int, n: int)
    requires
        0 <= i <= n,
    ensures
        i <= spec_word_end(s, i, n) <= n,
    decreases n - i,
{
    if i < n && i < s.len() && s[i] != ' ' {
        lemma_word_end_bounds(s, i + 1, n);
    }
}

/// The index of the next space at or past `i`, or the end.
pub open spec fn spec_word_end(s: Seq<char>, i: int, n: int) -> int
    decreases n - i,
{
    if i < 0 || i >= n || i >= s.len() {
        n
    } else if s[i] == ' ' {
        i
    } else {
        spec_word_end(s, i + 1, n)
    }
}

/// True when a word holds an `x`.
pub open spec fn spec_has_x(w: Seq<char>) -> bool {
    exists|k: int| 0 <= k < w.len() && w[k] == 'x'
}

/// The words without an `x`, in order.
pub open spec fn spec_keep_tokens(tokens: Seq<Seq<char>>) -> Seq<Seq<char>>
    decreases tokens.len(),
{
    if tokens.len() == 0 {
        Seq::<Seq<char>>::empty()
    } else {
        spec_keep_tokens(tokens.drop_last()) + (if spec_has_x(tokens.last()) {
            Seq::<Seq<char>>::empty()
        } else {
            seq![tokens.last()]
        })
    }
}

/// The kept tokens of a move string: its words without an `x`.
pub open spec fn spec_kept_tokens(s: Seq<char>) -> Seq<Seq<char>> {
    spec_keep_tokens(spec_tokens(s))
}

/// A step token read as a square and direction: characters 1..3 name
/// the square and character 3 the direction.
pub open spec fn spec_token_move(w: Seq<char>) -> Option<Action> {
    if w.len() == 4 {
        match Square::spec_parse(w[1], w[2]) {
            Some(sq) => match Direction::spec_from_char(w[3]) {
                Some(d) => Some(Action::Move(sq, d)),
                None => None,
            },
            None => None,
        }
    } else {
        None
    }
}

/// A placement token read as its piece.
pub open spec fn spec_token_place(w: Seq<char>) -> Option<Action> {
    if w.len() >= 1 {
        match Piece::spec_from_char(w[0]) {
            Some((p, _)) => Some(Action::Place(p)),
            None => None,
        }
    } else {
        None
    }
}

/// The key a placement token sorts by: its square's index.
pub open spec fn spec_token_square_key(w: Seq<char>) -> int {
    if w.len() >= 3 {
        match Square::spec_parse(w[1], w[2]) {
            Some(sq) => sq.0 as int,
            None => -1,
        }
    } else {
        -1
    }
}

/// Inserts a token into a run already sorted by square key, keeping
/// equal keys in their arrival order.
pub open spec fn spec_insert_token(sorted: Seq<Seq<char>>, w: Seq<char>) -> Seq<Seq<char>>
    decreases sorted.len(),
{
    if sorted.len() == 0 {
        seq![w]
    } else if spec_token_square_key(sorted.last()) <= spec_token_square_key(w) {
        sorted.push(w)
    } else {
        spec_insert_token(sorted.drop_last(), w).push(sorted.last())
    }
}

/// The tokens stably sorted by square key.
pub open spec fn spec_sort_tokens(tokens: Seq<Seq<char>>) -> Seq<Seq<char>>
    decreases tokens.len(),
{
    if tokens.len() == 0 {
        Seq::<Seq<char>>::empty()
    } else {
        spec_insert_token(spec_sort_tokens(tokens.drop_last()), tokens.last())
    }
}

/// The actions a move string names: more than four kept tokens are a
/// setup move, read as placements in square order; otherwise each token
/// is a step, and a move of fewer than four steps ends with a pass.
pub open spec fn spec_move_string_actions(s: Seq<char>) -> Option<Seq<Action>> {
    let tokens = spec_kept_tokens(s);
    if tokens.len() > 4 {
        spec_map_places(spec_sort_tokens(tokens))
    } else {
        match spec_map_moves(tokens) {
            Some(moves) => Some(
                if moves.len() <= 3 {
                    moves.push(Action::Pass)
                } else {
                    moves
                },
            ),
            None => None,
        }
    }
}

/// Reads every token as a placement, failing on the first misfit.
pub open spec fn spec_map_places(tokens: Seq<Seq<char>>) -> Option<Seq<Action>>
    decreases tokens.len(),
{
    if tokens.len() == 0 {
        Some(Seq::<Action>::empty())
    } else {
        match (spec_map_places(tokens.drop_last()), spec_token_place(tokens.last())) {
            (Some(done), Some(a)) => Some(done.push(a)),
            _ => None,
        }
    }
}

/// Reads every token as a step, failing on the first misfit.
pub open spec fn spec_map_moves(tokens: Seq<Seq<char>>) -> Option<Seq<Action>>
    decreases tokens.len(),
{
    if tokens.len() == 0 {
        Some(Seq::<Action>::empty())
    } else {
        match (spec_map_moves(tokens.drop_last()), spec_token_move(tokens.last())) {
            (Some(done), Some(a)) => Some(done.push(a)),
            _ => None,
        }
    }
}

/// The square key of one token.
fn token_square_key(w: &Vec<char>) -> (r: i8)
    ensures
        r as int == spec_token_square_key(w@),
{
    if w.len() >= 3 {
        match Square::parse_chars(w[1], w[2]) {
            Some(sq) => sq.0 as i8,
            None => -1,
        }
    } else {
        -1
    }
}

/// Inserts a token into a run sorted by square key, stably.
fn insert_token(sorted: Vec<Vec<char>>, w: Vec<char>) -> (r: Vec<Vec<char>>)
    ensures
        r@.map_values(|t: Vec<char>| t@) == spec_insert_token(
            sorted@.map_values(|t: Vec<char>| t@),
            w@,
        ),
    decreases sorted@.len(),
{
    let ghost sv = sorted@.map_values(|t: Vec<char>| t@);
    let mut sorted = sorted;
    if sorted.len() == 0 {
        let mut out: Vec<Vec<char>> = Vec::new();
        out.push(w);
        proof {
            assert(out@.map_values(|t: Vec<char>| t@) =~= spec_insert_token(sv, w@));
        }
        out
    } else {
        let lastkey = token_square_key(&sorted[sorted.len() - 1]);
        proof {
            assert(sv.last() == sorted@.last()@);
        }
        if lastkey <= token_square_key(&w) {
            sorted.push(w);
            proof {
                assert(sorted@.map_values(|t: Vec<char>| t@) =~= spec_insert_token(sv, w@));
            }
            sorted
        } else {
            let last = match sorted.pop() {
                Some(t) => t,
                None => {
                    proof {
                        assert(false);
                    }
                    Vec::new()
                },
            };
            proof {
                assert(sorted@.map_values(|t: Vec<char>| t@) =~= sv.drop_last());
            }
            let mut out = insert_token(sorted, w);
            out.push(last);
            proof {
                assert(out@.map_values(|t: Vec<char>| t@) =~= spec_insert_token(sv, w@));
            }
            out
        }
    }
}

/// Reads a move string back into actions: capture markers are dropped,
/// more than four tokens are placements read in square order, and a
/// shorter move's steps end with a pass.  Fails when a token does not
/// fit its role.
pub fn convert_move_string_to_actions(actions_as_string: &str) -> (r: Result<
    Vec<Action>,
    ParseError,
>)
    requires
        actions_as_string@.len() < usize::MAX,
    ensures
        r matches Ok(v) ==> spec_move_string_actions(actions_as_string@) == Some(v@),
        r is Err <==> spec_move_string_actions(actions_as_string@) is None,
{
    let chars = chars_of(actions_as_string);
    let n = chars.len();
    let ghost sv = actions_as_string@;
    proof {
        assert(n < usize::MAX);
    }
    // Tokenize on spaces.
    let mut tokens: Vec<Vec<char>> = Vec::new();
    let mut i: usize = 0;
    proof {
        assert(spec_tokens(sv) =~= tokens@.map_values(|t: Vec<char>| t@) + spec_tokens_from(
            sv,
            0,
            sv.len() as int,
        ));
    }
    while i <= n
        invariant
            i <= n + 1,
            n == chars@.len(),
            n < usize::MAX,
            chars@ == sv,
            spec_tokens(sv) == tokens@.map_values(|t: Vec<char>| t@) + spec_tokens_from(
                sv,
                i as int,
                sv.len() as int,
            ),
        decreases n + 1 - i,
    {
        let mut j: usize = i;
        let mut word: Vec<char> = Vec::new();
        while j < n && chars[j] != ' '
            invariant
                i <= j <= n == chars@.len(),
                chars@ == sv,
                word@ == sv.subrange(i as int, j as int),
                spec_word_end(sv, i as int, sv.len() as int) == spec_word_end(
                    sv,
                    j as int,
                    sv.len() as int,
                ),
            decreases n - j,
        {
            word.push(chars[j]);
            j = j + 1;
            proof {
                assert(word@ =~= sv.subrange(i as int, j as int));
            }
        }
        proof {
            assert(spec_word_end(sv, j as int, sv.len() as int) == (if j < n {
                j as int
            } else {
                sv.len() as int
            }));
        }
        tokens.push(word);
        let ghost iold = i as int;
        i = j + 1;
        proof {
            if j < n {
                assert(sv.subrange(iold, j as int) =~= sv.subrange(
                    iold,
                    spec_word_end(sv, iold, sv.len() as int),
                ));
            } else {
                assert(sv.subrange(iold, n as int) =~= sv.subrange(iold, sv.len() as int));
            }
            assert(spec_tokens(sv) =~= tokens@.map_values(|t: Vec<char>| t@) + spec_tokens_from(
                sv,
                i as int,
                sv.len() as int,
            ));
        }
    }
    proof {
        assert(spec_tokens_from(sv, i as int, sv.len() as int) =~= Seq::<Seq<char>>::empty());
        assert(spec_tokens(sv) =~= tokens@.map_values(|t: Vec<char>| t@));
    }
    // Drop capture markers.
    let mut kept: Vec<Vec<char>> = Vec::new();
    let mut k: usize = 0;
    proof {
        assert(tokens@.subrange(0, 0) =~= Seq::<Vec<char>>::empty());
        assert(kept@.map_values(|t: Vec<char>| t@) =~= spec_keep_tokens(
            tokens@.subrange(0, 0).map_values(|t: Vec<char>| t@),
        ));
    }
    while k < tokens.len()
        invariant
            k <= tokens@.len(),
            tokens@.map_values(|t: Vec<char>| t@) == spec_tokens(sv),
            kept@.map_values(|t: Vec<char>| t@) == spec_keep_tokens(
                tokens@.subrange(0, k as int).map_values(|t: Vec<char>| t@),
            ),
        decreases tokens@.len() - k,
    {
        proof {
            assert(tokens@.subrange(0, k + 1).map_values(|t: Vec<char>| t@).drop_last()
                =~= tokens@.subrange(0, k as int).map_values(|t: Vec<char>| t@));
            assert(tokens@.subrange(0, k + 1).map_values(|t: Vec<char>| t@).last()
                == tokens@[k as int]@);
        }
        let mut has_x = false;
        let w = &tokens[k];
        let mut c: usize = 0;
        while c < w.len()
            invariant
                c <= w@.len(),
                has_x == exists|t: int| 0 <= t < c && w@[t] == 'x',
            decreases w@.len() - c,
        {
            if w[c] == 'x' {
                has_x = true;
            }
            c = c + 1;
        }
        proof {
            assert(has_x == spec_has_x(w@));
        }
        if !has_x {
            let copy = copy_chars(w);
            kept.push(copy);
        }
        k = k + 1;
        proof {
            assert(kept@.map_values(|t: Vec<char>| t@) =~= spec_keep_tokens(
                tokens@.subrange(0, k as int).map_values(|t: Vec<char>| t@),
            ));
        }
    }
    proof {
        assert(tokens@.subrange(0, tokens@.len() as int) =~= tokens@);
        assert(kept@.map_values(|t: Vec<char>| t@) =~= spec_kept_tokens(sv));
    }
    let ghost keptv = kept@.map_values(|t: Vec<char>| t@);
    if kept.len() > 4 {
        // A setup move: sort by square and read as placements.
        let mut sorted: Vec<Vec<char>> = Vec::new();
        let mut k2: usize = 0;
        let kept_len = kept.len();
        proof {
            assert(kept@.subrange(0, 0) =~= Seq::<Vec<char>>::empty());
            assert(sorted@.map_values(|t: Vec<char>| t@) =~= spec_sort_tokens(
                kept@.subrange(0, 0).map_values(|t: Vec<char>| t@),
            ));
        }
        let mut rest = kept;
        while k2 < kept_len
            invariant
                k2 <= kept_len,
                rest@.len() == kept_len - k2,
                keptv.len() == kept_len,
                kept_len > 4,
                keptv == spec_kept_tokens(sv),
                forall|t: int| 0 <= t < rest@.len() ==> rest@[t]@ == keptv[k2 + t],
                sorted@.map_values(|t: Vec<char>| t@) == spec_sort_tokens(
                    keptv.subrange(0, k2 as int),
                ),
            decreases kept_len - k2,
        {
            let w = rest.remove(0);
            proof {
                assert(keptv.subrange(0, k2 + 1).drop_last() =~= keptv.subrange(0, k2 as int));
                assert(keptv.subrange(0, k2 + 1).last() == keptv[k2 as int]);
            }
            sorted = insert_token(sorted, w);
            k2 = k2 + 1;
        }
        proof {
            assert(keptv.subrange(0, keptv.len() as int) =~= keptv);
        }
        // Read the sorted tokens as placements.
        let ghost sortedv = sorted@.map_values(|t: Vec<char>| t@);
        let mut out: Vec<Action> = Vec::new();
        let mut k3: usize = 0;
        proof {
            assert(sortedv.subrange(0, 0) =~= Seq::<Seq<char>>::empty());
        }
        while k3 < sorted.len()
            invariant
                k3 <= sorted@.len(),
                sv == actions_as_string@,
                sortedv == sorted@.map_values(|t: Vec<char>| t@),
                keptv == spec_kept_tokens(sv),
                keptv.len() > 4,
                sortedv == spec_sort_tokens(keptv),
                spec_map_places(sortedv.subrange(0, k3 as int)) == Some(out@),
            decreases sorted@.len() - k3,
        {
            proof {
                assert(sortedv.subrange(0, k3 + 1).drop_last() =~= sortedv.subrange(0, k3 as int));
                assert(sortedv.subrange(0, k3 + 1).last() == sortedv[k3 as int]);
            }
            let w = &sorted[k3];
            proof {
                assert(sortedv[k3 as int] == sorted@[k3 as int]@);
            }
            if w.len() < 1 {
                proof {
                    lemma_map_places_none(sortedv, k3 as int);
                    assert(spec_kept_tokens(sv) == keptv);
                    assert(spec_sort_tokens(keptv) == sortedv);
                    assert(spec_map_places(spec_sort_tokens(spec_kept_tokens(sv))) is None);
                    assert(spec_move_string_actions(sv) is None);
                }
                return Err(ParseError);
            }
            match Piece::from_char(w[0]) {
                Some((p, _)) => {
                    out.push(Action::Place(p));
                },
                None => {
                    proof {
                        lemma_map_places_none(sortedv, k3 as int);
                        assert(spec_move_string_actions(sv) is None);
                    }
                    return Err(ParseError);
                },
            }
            k3 = k3 + 1;
        }
        proof {
            assert(sortedv.subrange(0, sortedv.len() as int) =~= sortedv);
            assert(spec_move_string_actions(sv) == Some(out@));
        }
        Ok(out)
    } else {
        // A play move: read each token as a step.
        let mut out: Vec<Action> = Vec::new();
        let mut k3: usize = 0;
        proof {
            assert(keptv.subrange(0, 0) =~= Seq::<Seq<char>>::empty());
        }
        while k3 < kept.len()
            invariant
                k3 <= kept@.len(),
                sv == actions_as_string@,
                keptv == kept@.map_values(|t: Vec<char>| t@),
                keptv == spec_kept_tokens(sv),
                keptv.len() <= 4,
                spec_map_moves(keptv.subrange(0, k3 as int)) == Some(out@),
                out@.len() == k3,
            decreases kept@.len() - k3,
        {
            proof {
                assert(keptv.subrange(0, k3 + 1).drop_last() =~= keptv.subrange(0, k3 as int));
                assert(keptv.subrange(0, k3 + 1).last() == keptv[k3 as int]);
            }
            let w = &kept[k3];
            proof {
                assert(keptv[k3 as int] == kept@[k3 as int]@);
            }
            if w.len() != 4 {
                proof {
                    lemma_map_moves_none(keptv, k3 as int);
                    assert(spec_kept_tokens(sv) == keptv);
                    assert(spec_map_moves(spec_kept_tokens(sv)) is None);
                    assert(spec_move_string_actions(sv) is None);
                }
                return Err(ParseError);
            }
            match Square::parse_chars(w[1], w[2]) {
                Some(sq) => match Direction::from_char(w[3]) {
                    Some(d) => {
                        out.push(Action::Move(sq, d));
                    },
                    None => {
                        proof {
                            lemma_map_moves_none(keptv, k3 as int);
                            assert(spec_move_string_actions(sv) is None);
                        }
                        return Err(ParseError);
                    },
                },
                None => {
                    proof {
                        lemma_map_moves_none(keptv, k3 as int);
                        assert(spec_move_string_actions(sv) is None);
                    }
                    return Err(ParseError);
                },
            }
            k3 = k3 + 1;
        }
        proof {
            assert(keptv.subrange(0, keptv.len() as int) =~= keptv);
        }
        if out.len() <= 3 {
            out.push(Action::Pass);
        }
        proof {
            assert(spec_move_string_actions(sv) == Some(out@));
        }
        Ok(out)
    }
}

/// A bad token anywhere spoils the whole placement reading.
proof fn lemma_map_places_none(tokens: Seq<Seq<char>>, k: int)
    requires
        0 <= k < tokens.len(),
        spec_token_place(tokens[k]) is None,
    ensures
        spec_map_places(tokens) is None,
    decreases tokens.len(),
{
    if k < tokens.len() - 1 {
        assert(tokens.drop_last()[k] == tokens[k]);
        lemma_map_places_none(tokens.drop_last(), k);
    }
}

/// A bad token anywhere spoils the whole step reading.
proof fn lemma_map_moves_none(tokens: Seq<Seq<char>>, k: int)
    requires
        0 <= k < tokens.len(),
        spec_token_move(tokens[k]) is None,
    ensures
        spec_map_moves(tokens) is None,
    decreases tokens.len(),
{
    if k < tokens.len() - 1 {
        assert(tokens.drop_last()[k] == tokens[k]);
        lemma_map_moves_none(tokens.drop_last(), k);
    }
}

/// Copies a token.
fn copy_chars(w: &Vec<char>) -> (r: Vec<char>)
    ensures
        r@ == w@,
{
    let mut out: Vec<char> = Vec::new();
    let mut i: usize = 0;
    while i < w.len()
        invariant
            i <= w@.len(),
            out@ == w@.subrange(0, i as int),
        decreases w@.len() - i,
    {
        out.push(w[i]);
        i = i + 1;
        proof {
            assert(out@ =~= w@.subrange(0, i as int));
        }
    }
    proof {
        assert(w@.subrange(0, w@.len() as int) =~= w@);
    }
    out
}

/// Collects the characters of a string.
fn chars_of(s: &str) -> (r: Vec<char>)
    ensures
        r@ == s@,
{
    let n = s.unicode_len();
    let mut out: Vec<char> = Vec::new();
    let mut i: usize = 0;
    while i < n
        invariant
            i <= n == s@.len(),
            out@ == s@.subrange(0, i as int),
        decreases n - i,
    {
        out.push(s.get_char(i));
        i = i + 1;
        proof {
            assert(out@ =~= s@.subrange(0, i as int));
        }
    }
    proof {
        assert(s@.subrange(0, s@.len() as int) =~= s@);
    }
    out
}

} // verus!
