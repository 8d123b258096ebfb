//! Properties exercised on concrete values: setup quotas, hash
//! stability across construction paths, text round trips, move-string
//! notation, and trap prediction.

use arimaa_engine_step::{
    convert_actions_to_move_string, convert_char_to_piece, convert_move_string_to_actions,
    convert_piece_to_letter, Action, Direction, GameState, List, Piece, PushPullState, Square,
};

fn board(s: &str) -> GameState {
    GameState::parse_board_str(s).unwrap()
}

fn act(s: &str) -> Action {
    Action::parse_str(s).unwrap()
}

fn apply(game_state: GameState, actions: &[&str]) -> GameState {
    let mut game_state = game_state;
    for a in actions {
        game_state = game_state.take_action(&act(a));
    }
    game_state
}

fn initial_play_state() -> GameState {
    let game_state = GameState::initial();
    let game_state = apply(game_state, &["r", "r", "r", "r", "r", "r", "r", "r"]);
    let game_state = apply(game_state, &["h", "c", "d", "m", "e", "d", "c", "h"]);
    let game_state = apply(game_state, &["h", "c", "d", "m", "e", "d", "c", "h"]);
    apply(game_state, &["r", "r", "r", "r", "r", "r", "r", "r"])
}

#[test]
fn test_setup_quotas_reach_play_phase() {
    // Taking the first suggested placement 32 times fills both sides'
    // quotas exactly and hands the play phase to the first player at
    // move 2.
    let mut game_state = GameState::initial();
    for i in 0..32 {
        assert!(!game_state.is_play_phase(), "still placing at step {}", i);
        assert_eq!(game_state.move_number(), 1);
        let actions = game_state.valid_actions();
        assert!(!actions.is_empty());
        assert!(matches!(actions[0], Action::Place(_)));
        game_state = game_state.take_action(&actions[0]);
    }
    assert!(game_state.is_play_phase());
    assert!(game_state.is_p1_turn_to_move());
    assert_eq!(game_state.move_number(), 2);
    assert_eq!(game_state.current_step(), 0);
}

#[test]
fn test_parse_rejects_oversized_move_number() {
    let text = "99999999999g
 +-----------------+
8|                 |
7|                 |
6|     x     x     |
5|                 |
4|                 |
3|     x     x     |
2| R               |
1|                 |
 +-----------------+
   a b c d e f g h
";
    let r = GameState::parse_board_str(text);
    assert!(r.is_err());
    assert_eq!(r.unwrap_err().message(), "invalid board text");
}

#[test]
fn test_display_parse_round_trip_preserves_hash() {
    // Rendering a play-phase position and reading it back restores the
    // boards, the side to move and the transposition hash.
    let a = initial_play_state();
    let b = board(&a.to_board_string());
    assert_eq!(a.piece_board(), b.piece_board());
    assert_eq!(a.is_p1_turn_to_move(), b.is_p1_turn_to_move());
    assert_eq!(a.move_number(), b.move_number());
    assert_eq!(a.transposition_hash(), b.transposition_hash());
}

#[test]
fn test_hash_stable_under_construction_paths() {
    // Reaching a position by play and by parsing its text agree on the
    // hash.
    let by_play = apply(initial_play_state(), &["a2n", "a3n", "a4n", "p"]);
    let by_text = board(&by_play.to_board_string());
    assert_eq!(by_play.transposition_hash(), by_text.transposition_hash());
}

#[test]
fn test_move_string_writes_piece_letters_and_spaces() {
    let game_state = initial_play_state();
    let actions = [act("a2n"), act("b2n")];
    let s = convert_actions_to_move_string(game_state, &actions);
    assert_eq!(s, "Ra2n Rb2n");
}

#[test]
fn test_move_string_marks_capture() {
    // A lone rabbit stepping onto c3 is swept, and the move string
    // records the capture.
    let game_state = board(
        "1g
 +-----------------+
8|           r     |
7|                 |
6|     x     x     |
5|                 |
4|                 |
3|     x     x     |
2|     R           |
1|                 |
 +-----------------+
   a b c d e f g h
",
    );
    let actions = [act("c2n")];
    let s = convert_actions_to_move_string(game_state, &actions);
    assert_eq!(s, "Rc2n Rc3x");
}

#[test]
fn test_move_string_reads_steps_and_pass() {
    let r = convert_move_string_to_actions("Ra2n Rb2n").unwrap();
    assert_eq!(
        r,
        vec![
            Action::Move(Square::new('a', 2), Direction::Up),
            Action::Move(Square::new('b', 2), Direction::Up),
            Action::Pass,
        ],
    );
}

#[test]
fn test_move_string_reads_placements_in_square_order() {
    let r = convert_move_string_to_actions("Re2 Ra2 Cb2 Dd2 Hc2").unwrap();
    assert_eq!(
        r,
        vec![
            Action::Place(Piece::Rabbit),
            Action::Place(Piece::Cat),
            Action::Place(Piece::Horse),
            Action::Place(Piece::Dog),
            Action::Place(Piece::Rabbit),
        ],
    );
}

#[test]
fn test_move_string_drops_capture_tokens() {
    let r = convert_move_string_to_actions("Rc2n Rc3x").unwrap();
    assert_eq!(
        r,
        vec![Action::Move(Square::new('c', 2), Direction::Up), Action::Pass],
    );
}

#[test]
fn test_move_string_rejects_bad_token() {
    assert!(convert_move_string_to_actions("zz").is_err());
}

#[test]
fn test_trapped_animal_predicted_without_committing() {
    let game_state = board(
        "1g
 +-----------------+
8|           r     |
7|                 |
6|     x     x     |
5|                 |
4|                 |
3|     x     x     |
2|     R           |
1|                 |
 +-----------------+
   a b c d e f g h
",
    );
    let t = game_state.trapped_animal_for_action(&act("c2n"));
    assert_eq!(t, Some((Square::new('c', 3), Piece::Rabbit, true)));
    // The position itself is untouched.
    assert_eq!(
        game_state.trapped_animal_for_action(&act("c2e")),
        None,
    );
}

#[test]
fn test_action_text_round_trip() {
    for name in ["a1n", "h8w", "c3s", "p", "r", "e"] {
        let a = Action::parse_str(name).unwrap();
        let text: String = a.text().into_iter().collect();
        assert_eq!(text, name);
    }
    assert_eq!(Action::parse_str("zzz"), None);
    assert_eq!(Action::parse_str(""), None);
}

#[test]
fn test_piece_letter_round_trip() {
    let pieces = [
        Piece::Rabbit,
        Piece::Cat,
        Piece::Dog,
        Piece::Horse,
        Piece::Camel,
        Piece::Elephant,
    ];
    for p in pieces {
        for is_p1 in [true, false] {
            let letter = convert_piece_to_letter(&p, is_p1);
            let c = letter.chars().next().unwrap();
            assert_eq!(convert_char_to_piece(c), Some((p, is_p1)));
        }
    }
    assert_eq!(convert_char_to_piece('x'), None);
}

#[test]
fn test_push_pull_state_accessors() {
    let free = PushPullState::Free;
    assert!(free.can_push());
    assert!(!free.is_must_complete_push());
    assert_eq!(free.as_possible_pull(), None);
    let pull = PushPullState::PossiblePull(Square::new('c', 5), Piece::Elephant);
    assert_eq!(
        pull.as_possible_pull(),
        Some((Square::new('c', 5), Piece::Elephant)),
    );
    let push = PushPullState::MustCompletePush(Square::new('b', 7), Piece::Rabbit);
    assert!(push.is_must_complete_push());
    assert!(!push.can_push());
    assert_eq!(push.unwrap_must_complete_push(), (Square::new('b', 7), Piece::Rabbit));
}

#[test]
fn test_list_iter_and_get() {
    let list: List<u64> = List::new();
    let list = list.append(1).append(2).append(3);
    assert_eq!(list.len(), 3);
    assert!(!list.is_empty());
    assert_eq!(*list.get(0), 1);
    assert_eq!(*list.get(2), 3);
    assert_eq!(list.iter(), vec![3, 2, 1]);
    let copy = list.duplicate();
    assert_eq!(copy.len(), 3);
    assert_eq!(*copy.head().unwrap(), 3);
}

#[test]
fn test_square_geometry() {
    let sq = Square::new('c', 4);
    assert_eq!(sq.index(), 34);
    assert_eq!(sq.row(), 4);
    assert_eq!(sq.column_char(), 'c');
    assert_eq!(sq.as_bit_board(), 1u64 << 34);
    assert_eq!(Square::from_bit_board(1u64 << 34), sq);
    assert_eq!(Square::from_index(34), sq);
    let (c0, c1) = sq.to_chars();
    assert_eq!((c0, c1), ('c', '4'));
}

#[test]
fn test_move_then_move_back_restores_board() {
    // Away from traps, stepping out and back restores the position's
    // boards exactly.
    let a = initial_play_state();
    let b = apply(a, &["d2n", "d3s"]);
    let fresh = initial_play_state();
    assert_eq!(fresh.piece_board(), b.piece_board());
}
