//! A step-based rules engine for the board game Arimaa.
//!
//! The engine represents a position as a set of 64-bit piece boards,
//! enumerates every legal single-step action, applies actions to produce
//! successor positions, and detects win/loss terminals.  Positions are
//! identified by an incrementally maintained Zobrist hash, and a persistent
//! history of end-of-move hashes backs the threefold-repetition rules.

pub mod action;
pub mod bits;
pub mod board;
pub mod direction;
pub mod display;
pub mod full_move;
pub mod game;
pub mod laws;
pub mod list;
pub mod piece;
pub mod square;
pub mod zobrist;

pub use action::{map_bit_board_to_squares, Action};
pub use bits::{first_set_bit, single_bit_index, single_bit_index_u64};
pub use board::{
    animal_is_on_trap, both_player_supported_pieces, both_player_unsupported_piece_bits,
    influenced_squares, piece_type_at_bit, shift_in_direction, shift_piece_in_direction,
    shift_pieces_in_direction, shift_pieces_in_opp_direction, supported_pieces, PieceBoard,
    PieceBoardState,
};
pub use direction::Direction;
pub use display::{convert_char_to_piece, convert_piece_to_letter, ParseError};
pub use full_move::{convert_actions_to_move_string, convert_move_string_to_actions};
pub use game::{GameState, Phase, PlayPhase, PushPullState, Terminal};
pub use list::List;
pub use piece::Piece;
pub use square::Square;
pub use zobrist::Zobrist;
