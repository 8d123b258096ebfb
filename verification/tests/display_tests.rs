//! Reading and writing the board text.

use arimaa_engine_step::{Action, GameState, Piece};

fn board(s: &str) -> GameState {
    GameState::parse_board_str(s).unwrap()
}

fn act(s: &str) -> Action {
    Action::parse_str(s).unwrap()
}

fn apply(game_state: GameState, actions: &[&str]) -> GameState {
    let mut game_state = game_state;
    for a in actions {
        game_state = game_state.take_action(&act(a));
    }
    game_state
}

fn fmt_actions(actions: &[Action]) -> String {
    let mut out = String::new();
    out.push('[');
    for (i, a) in actions.iter().enumerate() {
        if i > 0 {
            out.push_str(", ");
        }
        let chars: String = a.text().into_iter().collect();
        out.push_str(&chars);
    }
    out.push(']');
    out
}

fn place_major_pieces(game_state: GameState) -> GameState {
    apply(game_state, &["h", "c", "d", "m", "e", "d", "c", "h"])
}

fn place_8_rabbits(game_state: GameState) -> GameState {
    apply(game_state, &["r", "r", "r", "r", "r", "r", "r", "r"])
}

fn initial_play_state() -> GameState {
    let game_state = GameState::initial();
    let game_state = place_8_rabbits(game_state);
    let game_state = place_major_pieces(game_state);
    let game_state = place_major_pieces(game_state);
    place_8_rabbits(game_state)
}

#[test]
fn test_gamestate_fromstr() {
    let game_state: GameState = board("
        +-----------------+
        8|   r   r r   r   |
        7| m   h     e   c |
        6|   r x r r x r   |
        5| h   d     c   d |
        4| E   H         M |
        3|   R x R R H R   |
        2| D   C     C   D |
        1|   R   R R   R   |
        +-----------------+
           a b c d e f g h");

    let piece_board = game_state.piece_board();
    assert_eq!(
        piece_board.bits_for_piece(Piece::Rabbit, true),
        0b__01011010__00000000__01011010__00000000__00000000__00000000__00000000__00000000
    );
    assert_eq!(
        piece_board.bits_for_piece(Piece::Cat, true),
        0b__00000000__00100100__00000000__00000000__00000000__00000000__00000000__00000000
    );
    assert_eq!(
        piece_board.bits_for_piece(Piece::Dog, true),
        0b__00000000__10000001__00000000__00000000__00000000__00000000__00000000__00000000
    );
    assert_eq!(
        piece_board.bits_for_piece(Piece::Horse, true),
        0b__00000000__00000000__00100000__00000100__00000000__00000000__00000000__00000000
    );
    assert_eq!(
        piece_board.bits_for_piece(Piece::Camel, true),
        0b__00000000__00000000__00000000__10000000__00000000__00000000__00000000__00000000
    );
    assert_eq!(
        piece_board.bits_for_piece(Piece::Elephant, true),
        0b__00000000__00000000__00000000__00000001__00000000__00000000__00000000__00000000
    );

    assert_eq!(
        piece_board.bits_for_piece(Piece::Rabbit, false),
        0b__00000000__00000000__00000000__00000000__00000000__01011010__00000000__01011010
    );
    assert_eq!(
        piece_board.bits_for_piece(Piece::Cat, false),
        0b__00000000__00000000__00000000__00000000__00100000__00000000__10000000__00000000
    );
    assert_eq!(
        piece_board.bits_for_piece(Piece::Dog, false),
        0b__00000000__00000000__00000000__00000000__10000100__00000000__00000000__00000000
    );
    assert_eq!(
        piece_board.bits_for_piece(Piece::Horse, false),
        0b__00000000__00000000__00000000__00000000__00000001__00000000__00000100__00000000
    );
    assert_eq!(
        piece_board.bits_for_piece(Piece::Camel, false),
        0b__00000000__00000000__00000000__00000000__00000000__00000000__00000001__00000000
    );
    assert_eq!(
        piece_board.bits_for_piece(Piece::Elephant, false),
        0b__00000000__00000000__00000000__00000000__00000000__00000000__00100000__00000000
    );
}

#[test]
fn test_gamestate_fromstr_move_number_default() {
    let game_state: GameState = board("
        +-----------------+
        8|   r   r r   r   |
        7| m   h     e   c |
        6|   r x r r x r   |
        5| h   d     c   d |
        4| E   H         M |
        3|   R x R R H R   |
        2| D   C     C   D |
        1|   R   R R   R   |
        +-----------------+
           a b c d e f g h");

    assert_eq!(game_state.move_number(), 2);
    assert!(game_state.is_p1_turn_to_move());
}

#[test]
fn test_gamestate_fromstr_move_number() {
    let game_state: GameState = board("
        5s
        +-----------------+
        8|   r   r r   r   |
        7| m   h     e   c |
        6|   r x r r x r   |
        5| h   d     c   d |
        4| E   H         M |
        3|   R x R R H R   |
        2| D   C     C   D |
        1|   R   R R   R   |
        +-----------------+
           a b c d e f g h");

    assert_eq!(game_state.move_number(), 5);
    assert!(!game_state.is_p1_turn_to_move());
}

#[test]
fn test_gamestate_fromstr_player() {
    let game_state: GameState = board("
        176b
        +-----------------+
        8|   r   r r   r   |
        7| m   h     e   c |
        6|   r x r r x r   |
        5| h   d     c   d |
        4| E   H         M |
        3|   R x R R H R   |
        2| D   C     C   D |
        1|   R   R R   R   |
        +-----------------+
           a b c d e f g h");

    assert_eq!(game_state.move_number(), 176);
    assert!(!game_state.is_p1_turn_to_move());
}

#[test]
fn test_gamestate_fromstr_player_w() {
    let game_state: GameState = board("
        13w
        +-----------------+
        8|   r   r r   r   |
        7| m   h     e   c |
        6|   r x r r x r   |
        5| h   d     c   d |
        4| E   H         M |
        3|   R x R R H R   |
        2| D   C     C   D |
        1|   R   R R   R   |
        +-----------------+
           a b c d e f g h");

    assert_eq!(game_state.move_number(), 13);
    assert!(game_state.is_p1_turn_to_move());
}

#[test]
fn test_gamestate_to_str() {
    let expected_output = "2g
 +-----------------+
8| h c d m e d c h |
7| r r r r r r r r |
6|     x     x     |
5|                 |
4|                 |
3|     x     x     |
2| R R R R R R R R |
1| H C D M E D C H |
 +-----------------+
   a b c d e f g h
";

    assert_eq!(initial_play_state().to_board_string(), expected_output);
}

#[test]
fn test_gamestate_from_str_and_to_str() {
    let orig_str = "14g
 +-----------------+
8|   r   r r   r   |
7| m   h     e   c |
6|   r x r r x r   |
5| h   d     c   d |
4| E   H         M |
3|   R x R R x R   |
2| D   C     C   D |
1|   R   R R   R   |
 +-----------------+
   a b c d e f g h
";

    let game_state: GameState = board(orig_str);
    let new_str = game_state.to_board_string();

    assert_eq!(new_str, orig_str);
}
