//! The game state: phases, the push/pull turn machine, action application
//! and terminal detection.

use vstd::prelude::*;
use crate::action::Action;
use crate::board::{PieceBoard, PieceBoardState};
use crate::direction::Direction;
use crate::list::List;
use crate::piece::Piece;
use crate::square::Square;
use crate::zobrist::Zobrist;

verus! {

/// The winner of a finished game.
#[derive(Clone, Copy, Debug, PartialEq, Eq, Structural, Hash)]
pub enum Terminal {
    GoldWin,
    SilverWin,
}

/// The push/pull obligation between the steps of a turn.
#[derive(Clone, Copy, Debug, PartialEq, Eq, Structural, Hash)]
pub enum PushPullState {
    /// The turn started, or the last step completed a push or a pull.
    Free,
    /// The side to move just moved its own piece out of the square; a
    /// weaker enemy piece stepping into it counts as a pull.
    PossiblePull(Square, Piece),
    /// An enemy piece was just pushed and now sits on the square; the
    /// next step must fill the square it vacated with a stronger piece.
    MustCompletePush(Square, Piece),
}

impl PushPullState {
    /// True while a started push still awaits its completing step.
    pub fn is_must_complete_push(&self) -> (r: bool)
        ensures
            r == (self matches PushPullState::MustCompletePush(_, _)),
    {
        matches!(self, PushPullState::MustCompletePush(_, _))
    }

    /// The square and piece of a pending push.
    pub fn unwrap_must_complete_push(&self) -> (r: (Square, Piece))
        requires
            self matches PushPullState::MustCompletePush(_, _),
        ensures
            self matches PushPullState::MustCompletePush(sq, p) && r.0 == sq && r.1 == p,
    {
        match self {
            PushPullState::MustCompletePush(square, piece) => (*square, *piece),
            _ => {
                proof {
                    assert(false);
                }
                (Square(0), Piece::Rabbit)
            },
        }
    }

    /// The square and piece of a pull opportunity, if one is open.
    pub fn as_possible_pull(&self) -> (r: Option<(Square, Piece)>)
        ensures
            r == (match *self {
                PushPullState::PossiblePull(sq, p) => Some((sq, p)),
                _ => None::<(Square, Piece)>,
            }),
    {
        match self {
            PushPullState::PossiblePull(square, piece) => Some((*square, *piece)),
            _ => None,
        }
    }

    /// True when a new push may begin: not while one awaits completion.
    pub fn can_push(&self) -> (r: bool)
        ensures
            r == !(self matches PushPullState::MustCompletePush(_, _)),
    {
        !matches!(self, PushPullState::MustCompletePush(_, _))
    }
}

/// A sixteen-bit occupancy word that is filled from its low end up.
pub open spec fn prefix16(o: u64) -> bool {
    o & ((o + 1) as u64) == 0
}

/// The ghost model of a play-phase turn in progress.
pub struct PlayModel {
    /// The boards as they stood before each earlier step of this move,
    /// oldest first.  Its length is the current step number.
    pub boards: Seq<PieceBoardState>,
    /// The push or pull obligation left by the previous step.
    pub pps: PushPullState,
    /// The hash the move started from.
    pub initial_hash: u64,
    /// The end-of-move hashes seen since the last trapping move.
    pub history: Seq<u64>,
    /// Whether any piece was trapped during this move.
    pub trapped: bool,
}

/// The ghost model of the game phase.
pub enum PhaseModel {
    Place,
    Play(PlayModel),
}

/// The ghost model of a complete game state.
pub struct StateModel {
    pub p1_turn: bool,
    pub move_number: int,
    pub phase: PhaseModel,
    pub pb: PieceBoardState,
    pub hash: u64,
}

impl StateModel {
    /// The current step number: the play-phase boards recorded so far.
    pub open spec fn step(self) -> int {
        match self.phase {
            PhaseModel::Play(p) => p.boards.len() as int,
            PhaseModel::Place => 0,
        }
    }

    /// Everything that holds of a reachable setup-phase state: the boards
    /// are well shaped and confined to the two setup half-boards, the
    /// side to move is the side whose half still has room, and the hash
    /// is the full hash of the position.
    pub open spec fn place_wf(self) -> bool {
        &&& self.phase is Place
        &&& self.pb.disjoint_wf()
        &&& self.pb.all_pieces & !(crate::bits::P1_PLACEMENT_MASK | crate::bits::P2_PLACEMENT_MASK)
            == 0
        &&& self.pb.p1_pieces & !crate::bits::P1_PLACEMENT_MASK == 0
        &&& (self.pb.all_pieces & !self.pb.p1_pieces) & !crate::bits::P2_PLACEMENT_MASK == 0
        &&& self.move_number == 1
        &&& self.p1_turn == (self.pb.p1_pieces & crate::bits::P1_PLACEMENT_MASK
            != crate::bits::P1_PLACEMENT_MASK)
        &&& (self.p1_turn ==> !self.pb.all_pieces & crate::bits::P1_PLACEMENT_MASK != 0)
        &&& (!self.p1_turn ==> !self.pb.all_pieces & crate::bits::P2_PLACEMENT_MASK != 0)
        &&& self.hash == crate::zobrist::spec_place_hash(self.pb, self.p1_turn)
        &&& prefix16((self.pb.all_pieces & crate::bits::P1_PLACEMENT_MASK) >> 48u64)
        &&& prefix16(self.pb.all_pieces & crate::bits::P2_PLACEMENT_MASK)
        &&& (self.p1_turn ==> self.pb.all_pieces & crate::bits::P2_PLACEMENT_MASK == 0)
    }

    /// Everything that holds of a reachable play-phase state: clean traps,
    /// at most three recorded step boards, a sound push/pull obligation,
    /// and a hash that equals the full hash of the position.
    pub open spec fn play_wf(self) -> bool {
        match self.phase {
            PhaseModel::Play(p) => {
                &&& self.pb.disjoint_wf()
                &&& crate::board::spec_trapped_bits(self.pb) == 0
                &&& p.boards.len() <= 3
                &&& self.move_number >= 1
                &&& self.hash == crate::zobrist::spec_full_hash(
                    self.pb,
                    self.p1_turn,
                    p.boards.len() as int,
                )
                &&& (forall|i: int|
                    0 <= i < p.boards.len() ==> (#[trigger] p.boards[i]).disjoint_wf())
                &&& match p.pps {
                    PushPullState::Free => true,
                    PushPullState::PossiblePull(sq, pc) => sq.wf() && pc != Piece::Rabbit
                        && p.boards.len() >= 1,
                    PushPullState::MustCompletePush(sq, pc) => sq.wf() && pc != Piece::Elephant
                        && p.boards.len() >= 1,
                }
            },
            PhaseModel::Place => false,
        }
    }

    /// A state as the engine can reach it.
    pub open spec fn wf(self) -> bool {
        match self.phase {
            PhaseModel::Place => self.place_wf(),
            PhaseModel::Play(_) => self.play_wf(),
        }
    }
}

/// The play-phase bookkeeping a game state carries between steps.
#[derive(Debug)]
pub struct PlayPhase {
    previous_piece_boards_this_move: Vec<PieceBoard>,
    push_pull_state: PushPullState,
    initial_hash_of_move: Zobrist,
    hash_history: List<Zobrist>,
    piece_trapped_this_turn: bool,
}

impl View for PlayPhase {
    type V = PlayModel;

    closed spec fn view(&self) -> PlayModel {
        PlayModel {
            boards: self.previous_piece_boards_this_move@.map_values(|b: PieceBoard| b@),
            pps: self.push_pull_state,
            initial_hash: self.initial_hash_of_move.spec_hash(),
            history: self.hash_history@.map_values(|z: Zobrist| z.spec_hash()),
            trapped: self.piece_trapped_this_turn,
        }
    }
}

impl PlayPhase {
    /// The turn state at the start of a move: no steps taken, no
    /// obligation, nothing trapped.
    pub fn initial(initial_hash_of_move: Zobrist, hash_history: List<Zobrist>) -> (r: PlayPhase)
        ensures
            r@ == (PlayModel {
                boards: Seq::<PieceBoardState>::empty(),
                pps: PushPullState::Free,
                initial_hash: initial_hash_of_move.spec_hash(),
                history: hash_history@.map_values(|z: Zobrist| z.spec_hash()),
                trapped: false,
            }),
    {
        let r = PlayPhase {
            previous_piece_boards_this_move: Vec::new(),
            push_pull_state: PushPullState::Free,
            initial_hash_of_move,
            hash_history,
            piece_trapped_this_turn: false,
        };
        proof {
            assert(r@.boards =~= Seq::<PieceBoardState>::empty());
        }
        r
    }

    /// A turn state assembled from its parts.
    pub fn new(
        initial_hash_of_move: Zobrist,
        hash_history: List<Zobrist>,
        previous_piece_boards_this_move: Vec<PieceBoard>,
        push_pull_state: PushPullState,
        piece_trapped_this_turn: bool,
    ) -> (r: PlayPhase)
        ensures
            r@ == (PlayModel {
                boards: previous_piece_boards_this_move@.map_values(|b: PieceBoard| b@),
                pps: push_pull_state,
                initial_hash: initial_hash_of_move.spec_hash(),
                history: hash_history@.map_values(|z: Zobrist| z.spec_hash()),
                trapped: piece_trapped_this_turn,
            }),
    {
        PlayPhase {
            previous_piece_boards_this_move,
            push_pull_state,
            initial_hash_of_move,
            hash_history,
            piece_trapped_this_turn,
        }
    }

    /// The boards as they stood before each earlier step of this move.
    pub fn previous_piece_boards(&self) -> (r: &[PieceBoard])
        ensures
            r@.map_values(|b: PieceBoard| b@) == self@.boards,
    {
        self.previous_piece_boards_this_move.as_slice()
    }

    /// The push or pull obligation left by the previous step.
    pub fn push_pull_state(&self) -> (r: PushPullState)
        ensures
            r == self@.pps,
    {
        self.push_pull_state
    }

    /// Whether any piece was trapped during this move.
    pub fn piece_trapped_this_turn(&self) -> (r: bool)
        ensures
            r == self@.trapped,
    {
        self.piece_trapped_this_turn
    }

    /// The current step number.
    pub fn step(&self) -> (r: usize)
        ensures
            r == self@.boards.len(),
    {
        self.previous_piece_boards_this_move.len()
    }
}

/// The phase of the game: setting up, or playing.
#[derive(Debug)]
pub enum Phase {
    PlacePhase,
    PlayPhase(PlayPhase),
}

impl View for Phase {
    type V = PhaseModel;

    closed spec fn view(&self) -> PhaseModel {
        match self {
            Phase::PlacePhase => PhaseModel::Place,
            Phase::PlayPhase(p) => PhaseModel::Play(p@),
        }
    }
}

/// How a phase value is seen through its model.
pub proof fn lemma_phase_view(phase: Phase)
    ensures
        match phase {
            Phase::PlacePhase => phase@ == PhaseModel::Place,
            Phase::PlayPhase(pp) => phase@ == PhaseModel::Play(pp@),
        },
{
}

/// A complete game state.  Applying an action yields a new state; nothing
/// is mutated in place.
#[derive(Debug)]
pub struct GameState {
    p1_turn_to_move: bool,
    move_number: usize,
    phase: Phase,
    piece_board: PieceBoard,
    hash: Zobrist,
}

impl View for GameState {
    type V = StateModel;

    closed spec fn view(&self) -> StateModel {
        StateModel {
            p1_turn: self.p1_turn_to_move,
            move_number: self.move_number as int,
            phase: self.phase@,
            pb: self.piece_board@,
            hash: self.hash.spec_hash(),
        }
    }
}

impl GameState {
    /// The empty board at the start of the game: the first player is to
    /// place the first piece.
    pub fn initial() -> (r: GameState)
        ensures
            r@ == (StateModel {
                p1_turn: true,
                move_number: 1,
                phase: PhaseModel::Place,
                pb: crate::board::spec_empty_board(),
                hash: crate::zobrist::spec_initial_value(),
            }),
            r@.wf(),
    {
        let r = GameState {
            p1_turn_to_move: true,
            move_number: 1,
            piece_board: PieceBoard::initial(),
            phase: Phase::PlacePhase,
            hash: Zobrist::initial(),
        };
        proof {
            crate::bits::lemma_word_trivia(0u64, 48u64, 0u64);
            crate::bits::lemma_word_trivia(crate::bits::P1_PLACEMENT_MASK, 0u64, 0u64);
            crate::bits::lemma_word_trivia(crate::bits::P2_PLACEMENT_MASK, 0u64, 0u64);
            crate::bits::lemma_word_trivia(
                !(crate::bits::P1_PLACEMENT_MASK | crate::bits::P2_PLACEMENT_MASK),
                0u64,
                0u64,
            );
            crate::bits::lemma_word_trivia(!crate::bits::P1_PLACEMENT_MASK, 0u64, 0u64);
            crate::bits::lemma_word_trivia(!crate::bits::P2_PLACEMENT_MASK, 0u64, 0u64);
            crate::bits::lemma_word_trivia(1u64, 0u64, 0u64);
            assert(0u64 & crate::bits::P1_PLACEMENT_MASK == 0);
            assert(!0u64 & crate::bits::P1_PLACEMENT_MASK == crate::bits::P1_PLACEMENT_MASK);
            assert((0u64 & 0xFFFF_0000_0000_0000u64) >> 48u64 == 0u64);
            assert(prefix16((0u64 & crate::bits::P1_PLACEMENT_MASK) >> 48u64));
            assert(prefix16(0u64 & crate::bits::P2_PLACEMENT_MASK));
        }
        r
    }

    /// A game state assembled from its parts.
    pub fn new(
        p1_turn_to_move: bool,
        move_number: usize,
        phase: Phase,
        piece_board: PieceBoard,
        hash: Zobrist,
    ) -> (r: GameState)
        ensures
            r@ == (StateModel {
                p1_turn: p1_turn_to_move,
                move_number: move_number as int,
                phase: phase@,
                pb: piece_board@,
                hash: hash.spec_hash(),
            }),
    {
        GameState { p1_turn_to_move, move_number, phase, piece_board, hash }
    }

    /// A view of the current boards.
    pub fn piece_board(&self) -> (r: &PieceBoardState)
        ensures
            *r == self@.pb,
    {
        self.piece_board.piece_board()
    }

    /// True if the first player (gold) is to move.
    pub fn is_p1_turn_to_move(&self) -> (r: bool)
        ensures
            r == self@.p1_turn,
    {
        self.p1_turn_to_move
    }

    /// The move number: the setup phase is move 1, play starts at move 2.
    pub fn move_number(&self) -> (r: usize)
        ensures
            r == self@.move_number,
    {
        self.move_number
    }

    /// True during the play phase.
    pub fn is_play_phase(&self) -> (r: bool)
        ensures
            r == (self@.phase is Play),
    {
        matches!(&self.phase, Phase::PlayPhase(_))
    }

    /// The play-phase bookkeeping, if the game is past setup.
    pub fn as_play_phase(&self) -> (r: Option<&PlayPhase>)
        ensures
            match r {
                Some(p) => self@.phase == PhaseModel::Play(p@),
                None => self@.phase is Place,
            },
    {
        match &self.phase {
            Phase::PlayPhase(play_phase) => Some(play_phase),
            _ => None,
        }
    }

    /// The play-phase bookkeeping of a state known to be past setup.
    pub fn unwrap_play_phase(&self) -> (r: &PlayPhase)
        requires
            self@.phase is Play,
        ensures
            self@.phase == PhaseModel::Play(r@),
    {
        match &self.phase {
            Phase::PlayPhase(play_phase) => play_phase,
            _ => {
                proof {
                    assert(false);
                }
                vstd::pervasive::unreached()
            },
        }
    }

    /// The current step number, counted from zero.
    pub fn current_step(&self) -> (r: usize)
        requires
            self@.phase is Play,
        ensures
            r == self@.step(),
    {
        self.unwrap_play_phase().step()
    }

    /// The boards as they stood at an earlier step of the current move.
    pub fn piece_board_for_step(&self, step: usize) -> (r: &PieceBoardState)
        requires
            self@.phase is Play,
            step <= self@.step(),
        ensures
            *r == (if step == self@.step() {
                self@.pb
            } else {
                self@.phase->Play_0.boards[step as int]
            }),
    {
        if step == self.current_step() {
            return self.piece_board.piece_board();
        }
        let previous_piece_board = &self.unwrap_play_phase().previous_piece_boards_this_move[step];
        previous_piece_board.piece_board()
    }
}

/// True when a step of the piece on `src_bit` in `direction` satisfies the
/// open pull opportunity: the vacated square lies one step onward and the
/// piece that left it is strictly stronger.
pub open spec fn spec_counted_as_pull(
    pps: PushPullState,
    pb: PieceBoardState,
    src_bit: u64,
    direction: Direction,
) -> bool {
    match pps {
        PushPullState::PossiblePull(prev_sq, my_piece) => (1u64 << prev_sq.0)
            == crate::board::spec_shift_raw(src_bit, direction)
            && my_piece.spec_strength() > crate::board::spec_piece_at(
            src_bit,
            pb,
        ).spec_strength(),
        _ => false,
    }
}

/// The push/pull obligation left behind after a step: an enemy move that
/// is no pull starts a push; an own non-Rabbit move opens a pull, unless
/// it just completed a push.
pub open spec fn spec_next_pps(
    m: StateModel,
    pps: PushPullState,
    square: Square,
    direction: Direction,
) -> PushPullState {
    let src_bit = 1u64 << square.0;
    let is_their = m.p1_turn ^ (src_bit & m.pb.p1_pieces != 0);
    let pc = crate::board::spec_piece_at(src_bit, m.pb);
    if is_their && !spec_counted_as_pull(pps, m.pb, src_bit, direction) {
        PushPullState::MustCompletePush(square, pc)
    } else if !is_their && !(pps is MustCompletePush) && pc != Piece::Rabbit {
        PushPullState::PossiblePull(square, pc)
    } else {
        PushPullState::Free
    }
}

/// The state after a setup placement.
pub open spec fn spec_place_step(m: StateModel, piece: Piece) -> StateModel {
    let placement_bit = m.pb.spec_placement_bit();
    let pb = m.pb;
    let new_elephants = if piece is Elephant {
        pb.elephants | placement_bit
    } else {
        pb.elephants
    };
    let new_camels = if piece is Camel {
        pb.camels | placement_bit
    } else {
        pb.camels
    };
    let new_horses = if piece is Horse {
        pb.horses | placement_bit
    } else {
        pb.horses
    };
    let new_dogs = if piece is Dog {
        pb.dogs | placement_bit
    } else {
        pb.dogs
    };
    let new_cats = if piece is Cat {
        pb.cats | placement_bit
    } else {
        pb.cats
    };
    let new_rabbits = if piece is Rabbit {
        pb.rabbits | placement_bit
    } else {
        pb.rabbits
    };
    let new_p1_pieces = pb.p1_pieces | (if m.p1_turn {
        placement_bit
    } else {
        0u64
    });
    let new_pb = crate::board::spec_new_board(
        new_p1_pieces,
        new_elephants,
        new_camels,
        new_horses,
        new_dogs,
        new_cats,
        new_rabbits,
    );
    let switch_players = placement_bit == crate::bits::LAST_P1_PLACEMENT_MASK;
    let switch_phases = placement_bit == crate::bits::LAST_P2_PLACEMENT_MASK;
    let new_p1_turn = if switch_players {
        false
    } else if switch_phases {
        true
    } else {
        m.p1_turn
    };
    let sq = Square(vstd::std_specs::bits::u64_trailing_zeros(placement_bit) as u8);
    let new_hash = m.hash ^ (if switch_players || switch_phases {
        crate::zobrist::spec_player_value()
    } else {
        0u64
    }) ^ crate::zobrist::spec_piece_value(sq, piece, m.p1_turn) ^ (if switch_phases {
        crate::zobrist::spec_step_value(0)
    } else {
        0u64
    });
    let new_phase = if switch_phases {
        PhaseModel::Play(
            PlayModel {
                boards: Seq::<PieceBoardState>::empty(),
                pps: PushPullState::Free,
                initial_hash: new_hash,
                history: seq![new_hash],
                trapped: false,
            },
        )
    } else {
        PhaseModel::Place
    };
    StateModel {
        p1_turn: new_p1_turn,
        move_number: if switch_phases {
            2
        } else {
            1
        },
        phase: new_phase,
        pb: new_pb,
        hash: new_hash,
    }
}

/// The state after the side to move passes: the move is committed, the
/// new hash joins the end-of-move history (restarted if this move
/// trapped a piece), and the other side starts its move.
pub open spec fn spec_pass_step(m: StateModel) -> StateModel {
    let p = m.phase->Play_0;
    let h = m.hash ^ crate::zobrist::spec_player_value() ^ crate::zobrist::spec_step_value(0)
        ^ crate::zobrist::spec_step_value(p.boards.len() as int);
    let base_history = if m.trapped_this_turn() {
        Seq::<u64>::empty()
    } else {
        p.history
    };
    StateModel {
        p1_turn: !m.p1_turn,
        move_number: m.move_number + (if m.p1_turn {
            0int
        } else {
            1int
        }),
        phase: PhaseModel::Play(
            PlayModel {
                boards: Seq::<PieceBoardState>::empty(),
                pps: PushPullState::Free,
                initial_hash: h,
                history: base_history.push(h),
                trapped: false,
            },
        ),
        pb: m.pb,
        hash: h,
    }
}

impl StateModel {
    /// Whether a piece was trapped during the current move.
    pub open spec fn trapped_this_turn(self) -> bool {
        match self.phase {
            PhaseModel::Play(p) => p.trapped,
            PhaseModel::Place => false,
        }
    }
}

/// The state after one step moves a piece: the bit shifts, traps sweep,
/// the hash toggles the differences, and on the fourth step the move is
/// committed as a pass would commit it.
pub open spec fn spec_move_step(m: StateModel, square: Square, direction: Direction) -> StateModel {
    let p = m.phase->Play_0;
    let src = 1u64 << square.0;
    let moved = m.pb.spec_move_all(src, direction);
    let new_pb = m.pb.spec_after_move(src, direction);
    let trapped_now = crate::board::spec_trapped_bits(moved) != 0;
    let curr_step = p.boards.len() as int;
    let is_last = curr_step >= 3;
    let new_p1_turn = if is_last {
        !m.p1_turn
    } else {
        m.p1_turn
    };
    let new_step: int = if is_last {
        0
    } else {
        curr_step + 1
    };
    let new_hash = m.hash ^ (if m.p1_turn != new_p1_turn {
        crate::zobrist::spec_player_value()
    } else {
        0u64
    }) ^ (crate::zobrist::spec_board_fold(m.pb) ^ crate::zobrist::spec_board_fold(new_pb)) ^ (
    crate::zobrist::spec_step_value(curr_step) ^ crate::zobrist::spec_step_value(new_step));
    let base_history = if trapped_now {
        Seq::<u64>::empty()
    } else {
        p.history
    };
    let new_phase = if is_last {
        PhaseModel::Play(
            PlayModel {
                boards: Seq::<PieceBoardState>::empty(),
                pps: PushPullState::Free,
                initial_hash: new_hash,
                history: base_history.push(new_hash),
                trapped: false,
            },
        )
    } else {
        PhaseModel::Play(
            PlayModel {
                boards: p.boards.push(m.pb),
                pps: spec_next_pps(m, p.pps, square, direction),
                initial_hash: p.initial_hash,
                history: base_history,
                trapped: p.trapped || trapped_now,
            },
        )
    };
    StateModel {
        p1_turn: new_p1_turn,
        move_number: m.move_number + (if is_last && new_p1_turn {
            1int
        } else {
            0int
        }),
        phase: new_phase,
        pb: new_pb,
        hash: new_hash,
    }
}

/// What must hold of a `Move` action for the engine to apply it: the play
/// phase is on, the source square holds a piece, the landing square is on
/// the board and empty, and an enemy Elephant is only moved as a pull.
pub open spec fn spec_move_applicable(m: StateModel, square: Square, direction: Direction) -> bool {
    let src = 1u64 << square.0;
    &&& m.phase is Play
    &&& square.wf()
    &&& src & m.pb.all_pieces != 0
    &&& src & crate::board::spec_edge_mask(direction) == 0
    &&& crate::board::spec_shift_raw(src, direction) & m.pb.all_pieces == 0
    &&& ((m.p1_turn ^ (src & m.pb.p1_pieces != 0)) && crate::board::spec_piece_at(src, m.pb)
        is Elephant ==> spec_counted_as_pull(m.phase->Play_0.pps, m.pb, src, direction))
}

/// What must hold of any action for the engine to apply it.
pub open spec fn spec_action_applicable(m: StateModel, action: Action) -> bool {
    match action {
        Action::Place(_) => m.phase is Place,
        Action::Pass => m.phase is Play,
        Action::Move(square, direction) => spec_move_applicable(m, square, direction),
    }
}

/// The state an action leads to.
pub open spec fn spec_take_action(m: StateModel, action: Action) -> StateModel {
    match action {
        Action::Place(piece) => spec_place_step(m, piece),
        Action::Pass => spec_pass_step(m),
        Action::Move(square, direction) => spec_move_step(m, square, direction),
    }
}

/// A setup placement rewrites a setup hash: toggling the side change, the
/// placed piece's value and possibly the step-zero component.
proof fn lemma_hash_place(i: u64, c: u64, c2: u64, dc: u64, f: u64, w: u64, s0: u64)
    by (bit_vector)
    requires
        dc == c ^ c2,
    ensures
        ((((i ^ c) ^ f) ^ dc) ^ w) ^ 0 == (i ^ c2) ^ (f ^ w),
        ((((i ^ c) ^ f) ^ dc) ^ w) ^ s0 == ((i ^ c2) ^ s0) ^ (f ^ w),
{
}

/// How the first player's placements march through the setup squares:
/// the half board stays prefix-filled, and the turn hands over exactly
/// when the last square fills.
proof fn lemma_place_struct_p1(all: u64, p1: u64, bit: u64)
    by (bit_vector)
    requires
        all & !(0xFFFF_0000_0000_0000u64 | 0x0000_0000_0000_FFFFu64) == 0,
        p1 & !0xFFFF_0000_0000_0000u64 == 0,
        (all & !p1) & !0x0000_0000_0000_FFFFu64 == 0,
        p1 & !all == 0,
        ((all & 0xFFFF_0000_0000_0000u64) >> 48u64) & ((((all & 0xFFFF_0000_0000_0000u64)
            >> 48u64) + 1) as u64) == 0,
        all & 0x0000_0000_0000_FFFFu64 == 0,
        bit & (!all & 0xFFFF_0000_0000_0000u64) == bit,
        bit != 0,
        bit & ((bit - 1) as u64) == 0,
        ((bit - 1) as u64) & (!all & 0xFFFF_0000_0000_0000u64) == 0,
    ensures
        (((all | bit) & 0xFFFF_0000_0000_0000u64) >> 48u64) & (((((all | bit)
            & 0xFFFF_0000_0000_0000u64) >> 48u64) + 1) as u64) == 0,
        (all | bit) & 0x0000_0000_0000_FFFFu64 == 0,
        ((p1 | bit) & 0xFFFF_0000_0000_0000u64 != 0xFFFF_0000_0000_0000u64) <==> (bit
            != 0x8000_0000_0000_0000u64),
        bit != 0x8000_0000_0000_0000u64 ==> !(all | bit) & 0xFFFF_0000_0000_0000u64 != 0,
        bit == 0x8000_0000_0000_0000u64 ==> !(all | bit) & 0x0000_0000_0000_FFFFu64 != 0,
        bit != 0x0000_0000_0000_8000u64,
        (p1 | bit) & !0xFFFF_0000_0000_0000u64 == 0,
        ((all | bit) & !(p1 | bit)) & !0x0000_0000_0000_FFFFu64 == 0,
        (all | bit) & !(0xFFFF_0000_0000_0000u64 | 0x0000_0000_0000_FFFFu64) == 0,
{
}

/// How the second player's placements march through the setup squares.
proof fn lemma_place_struct_p2(all: u64, p1: u64, bit: u64)
    by (bit_vector)
    requires
        all & !(0xFFFF_0000_0000_0000u64 | 0x0000_0000_0000_FFFFu64) == 0,
        p1 & !0xFFFF_0000_0000_0000u64 == 0,
        (all & !p1) & !0x0000_0000_0000_FFFFu64 == 0,
        p1 & !all == 0,
        p1 & 0xFFFF_0000_0000_0000u64 == 0xFFFF_0000_0000_0000u64,
        (all & 0x0000_0000_0000_FFFFu64) & (((all & 0x0000_0000_0000_FFFFu64) + 1) as u64) == 0,
        bit & (!all & 0x0000_0000_0000_FFFFu64) == bit,
        bit != 0,
        bit & ((bit - 1) as u64) == 0,
        ((bit - 1) as u64) & (!all & 0x0000_0000_0000_FFFFu64) == 0,
    ensures
        ((all | bit) & 0x0000_0000_0000_FFFFu64) & ((((all | bit) & 0x0000_0000_0000_FFFFu64)
            + 1) as u64) == 0,
        ((all | bit) & 0xFFFF_0000_0000_0000u64) >> 48u64 == (all & 0xFFFF_0000_0000_0000u64)
            >> 48u64,
        bit != 0x8000_0000_0000_0000u64,
        (bit != 0x0000_0000_0000_8000u64) ==> !(all | bit) & 0x0000_0000_0000_FFFFu64 != 0,
        p1 & !0xFFFF_0000_0000_0000u64 == 0,
        ((all | bit) & !p1) & !0x0000_0000_0000_FFFFu64 == 0,
        (all | bit) & !(0xFFFF_0000_0000_0000u64 | 0x0000_0000_0000_FFFFu64) == 0,
        p1 & !(all | bit) == 0,
{
}


/// A setup placement leads from one reachable setup state to the next
/// reachable state: the boards stay well shaped, the half boards stay
/// prefix-filled, and the hash stays the full hash of the position.
#[verifier::rlimit(100)]
proof fn lemma_place_step_wf(m: StateModel, piece: Piece)
    requires
        m.wf(),
        m.phase is Place,
    ensures
        spec_place_step(m, piece).wf(),
{
    let pb = m.pb;
    let all = pb.all_pieces;
    let p1 = pb.p1_pieces;
    let active_mask: u64 = if p1 & crate::bits::P1_PLACEMENT_MASK
        == crate::bits::P1_PLACEMENT_MASK {
        crate::bits::P2_PLACEMENT_MASK
    } else {
        crate::bits::P1_PLACEMENT_MASK
    };
    let stp = !all & active_mask;
    assert(stp != 0);
    vstd::std_specs::bits::axiom_u64_trailing_zeros(stp);
    crate::bits::lemma_low_bit(stp);
    crate::bits::lemma_low_mask_zero(stp, vstd::std_specs::bits::u64_trailing_zeros(stp) as u64);
    let bit = pb.spec_placement_bit();
    assert(bit == 1u64 << vstd::std_specs::bits::u64_trailing_zeros(stp));
    assert(bit & stp == bit && ((bit - 1) as u64) & stp == 0 && crate::bits::is_single_bit(bit));
    assert(bit & all == 0) by (bit_vector)
        requires
            bit & (!all & active_mask) == bit,
    ;
    let sm = spec_place_step(m, piece);
    vstd::std_specs::bits::axiom_u64_trailing_zeros(bit);
    crate::bits::lemma_single_bit_form(bit);
    let i = vstd::std_specs::bits::u64_trailing_zeros(bit) as u64;
    crate::board::lemma_place_board_wf(pb, piece, m.p1_turn, bit);
    crate::zobrist::lemma_board_fold_place(pb, piece, m.p1_turn, i);
    let v = crate::zobrist::spec_player_value();
    let switch_players = bit == crate::bits::LAST_P1_PLACEMENT_MASK;
    let switch_phases = bit == crate::bits::LAST_P2_PLACEMENT_MASK;
    let c: u64 = if m.p1_turn {
        0u64
    } else {
        v
    };
    let c2: u64 = if sm.p1_turn {
        0u64
    } else {
        v
    };
    let dc: u64 = if switch_players || switch_phases {
        v
    } else {
        0u64
    };
    crate::zobrist::lemma_side_toggle(v);
    if m.p1_turn {
        lemma_place_struct_p1(all, p1, bit);
    } else {
        lemma_place_struct_p2(all, p1, bit);
        crate::bits::lemma_word_trivia(p1, 0u64, 0u64);
        assert(sm.pb.p1_pieces == p1);
    }
    assert(dc == c ^ c2);
    lemma_hash_place(
        crate::zobrist::spec_initial_value(),
        c,
        c2,
        dc,
        crate::zobrist::spec_board_fold(pb),
        crate::zobrist::spec_piece_value(Square(i as u8), piece, m.p1_turn),
        crate::zobrist::spec_step_value(0),
    );
    if switch_phases {
        crate::board::lemma_setup_rows_no_traps(sm.pb);
    }
}

/// Committing a move rewrites a full hash for the flipped side at step
/// zero.
proof fn lemma_hash_pass(i: u64, c: u64, c2: u64, v: u64, s: u64, s0: u64, f: u64)
    by (bit_vector)
    requires
        (c == 0 && c2 == v) || (c == v && c2 == 0),
    ensures
        ((((((i ^ c) ^ s) ^ f) ^ v) ^ s0) ^ s) == ((i ^ c2) ^ s0) ^ f,
{
}

impl GameState {
    /// Takes an action and returns the new game state.
    pub fn take_action(&self, action: &Action) -> (r: GameState)
        requires
            self@.wf(),
            spec_action_applicable(self@, *action),
            self@.move_number + 1 <= usize::MAX,
        ensures
            r@ == spec_take_action(self@, *action),
            r@.wf(),
    {
        match action {
            Action::Pass => self.pass(),
            Action::Place(piece) => self.place(*piece),
            Action::Move(square, direction) => self.move_piece_action(square, direction),
        }
    }

    /// Sets the next setup piece down on the next placement square,
    /// handing the turn over after each side's sixteenth placement.
    fn place(&self, piece: Piece) -> (r: GameState)
        requires
            self@.wf(),
            self@.phase is Place,
        ensures
            r@ == spec_place_step(self@, piece),
            r@.wf(),
    {
        let piece_board = self.piece_board.piece_board();
        let placement_bit = piece_board.placement_bit();
        let mut new_elephants = piece_board.elephants;
        let mut new_camels = piece_board.camels;
        let mut new_horses = piece_board.horses;
        let mut new_dogs = piece_board.dogs;
        let mut new_cats = piece_board.cats;
        let mut new_rabbits = piece_board.rabbits;
        match piece {
            Piece::Elephant => new_elephants = new_elephants | placement_bit,
            Piece::Camel => new_camels = new_camels | placement_bit,
            Piece::Horse => new_horses = new_horses | placement_bit,
            Piece::Dog => new_dogs = new_dogs | placement_bit,
            Piece::Cat => new_cats = new_cats | placement_bit,
            Piece::Rabbit => new_rabbits = new_rabbits | placement_bit,
        }
        let new_p1_pieces = piece_board.p1_pieces | (if self.p1_turn_to_move {
            placement_bit
        } else {
            0
        });
        let new_piece_board = PieceBoard::new(
            new_p1_pieces,
            new_elephants,
            new_camels,
            new_horses,
            new_dogs,
            new_cats,
            new_rabbits,
        );
        let switch_players = placement_bit == crate::bits::LAST_P1_PLACEMENT_MASK;
        let switch_phases = placement_bit == crate::bits::LAST_P2_PLACEMENT_MASK;
        let new_p1_turn_to_move = if switch_players {
            false
        } else if switch_phases {
            true
        } else {
            self.p1_turn_to_move
        };
        let new_hash = self.hash.place_piece(
            piece,
            Square::from_bit_board(placement_bit),
            self.p1_turn_to_move,
            switch_players,
            switch_phases,
        );
        let new_phase = if switch_phases {
            let hash_history = List::new();
            let hash_history = hash_history.append(new_hash);
            Phase::PlayPhase(PlayPhase::initial(new_hash, hash_history))
        } else {
            Phase::PlacePhase
        };
        let new_move_number: usize = if switch_phases {
            2
        } else {
            1
        };
        let r = GameState {
            p1_turn_to_move: new_p1_turn_to_move,
            phase: new_phase,
            piece_board: new_piece_board,
            move_number: new_move_number,
            hash: new_hash,
        };
        proof {
            let m = self@;
            let sm = spec_place_step(m, piece);
            assert(new_piece_board@ == crate::board::spec_place_board(
                m.pb,
                piece,
                m.p1_turn,
                m.pb.spec_placement_bit(),
            ));
            if switch_phases {
                assert(r@.phase->Play_0.boards =~= sm.phase->Play_0.boards);
                assert(r@.phase->Play_0.history =~= sm.phase->Play_0.history);
                assert(r@.phase->Play_0 == sm.phase->Play_0);
            }
            lemma_place_step_wf(m, piece);
            assert(r@ == sm);
        }
        r
    }

    /// Commits the rest of the move: flips the side, bumps the move
    /// number after the second player, and records the end-of-move hash.
    fn pass(&self) -> (r: GameState)
        requires
            self@.wf(),
            self@.phase is Play,
            self@.move_number + 1 <= usize::MAX,
        ensures
            r@ == spec_pass_step(self@),
            r@.wf(),
    {
        let hash = self.hash.pass(self.current_step());
        let play_phase = self.unwrap_play_phase();
        let new_hash_history = if play_phase.piece_trapped_this_turn() {
            List::new()
        } else {
            play_phase.hash_history.duplicate()
        };
        let new_hash_history = new_hash_history.append(hash);
        let r = GameState {
            phase: Phase::PlayPhase(PlayPhase::initial(hash, new_hash_history)),
            p1_turn_to_move: !self.p1_turn_to_move,
            move_number: self.move_number + (if self.p1_turn_to_move {
                0
            } else {
                1
            }),
            piece_board: self.piece_board,
            hash,
        };
        proof {
            let m = self@;
            let p = m.phase->Play_0;
            let v = crate::zobrist::spec_player_value();
            let c: u64 = if m.p1_turn {
                0u64
            } else {
                v
            };
            let c2: u64 = if !m.p1_turn {
                0u64
            } else {
                v
            };
            lemma_hash_pass(
                crate::zobrist::spec_initial_value(),
                c,
                c2,
                v,
                crate::zobrist::spec_step_value(p.boards.len() as int),
                crate::zobrist::spec_step_value(0),
                crate::zobrist::spec_board_fold(m.pb),
            );
            let sm = spec_pass_step(m);
            assert(r@.phase->Play_0.boards =~= sm.phase->Play_0.boards);
            assert(r@.phase->Play_0.history =~= sm.phase->Play_0.history);
            assert(r@.phase->Play_0 == sm.phase->Play_0);
            assert(r@ == sm);
        }
        r
    }

    /// True when the piece on `square_bit` belongs to the side not moving.
    fn is_their_piece(&self, square_bit: u64, piece_board: &PieceBoardState) -> (r: bool)
        ensures
            r == (self@.p1_turn ^ (square_bit & piece_board.p1_pieces != 0)),
    {
        let is_p1_piece = square_bit & piece_board.p1_pieces != 0;
        self.p1_turn_to_move ^ is_p1_piece
    }

    /// True when moving the enemy piece on `new_move_square_bit` in the
    /// given direction completes the open pull opportunity.
    fn move_can_be_counted_as_pull(
        &self,
        new_move_square_bit: u64,
        direction: &Direction,
        piece_board: &PieceBoardState,
    ) -> (r: bool)
        requires
            self@.wf(),
            self@.phase is Play,
        ensures
            r == spec_counted_as_pull(
                self@.phase->Play_0.pps,
                *piece_board,
                new_move_square_bit,
                *direction,
            ),
            *piece_board == self@.pb ==> r == spec_counted_as_pull(
                self@.phase->Play_0.pps,
                self@.pb,
                new_move_square_bit,
                *direction,
            ),
    {
        let play_phase = self.unwrap_play_phase();
        match play_phase.push_pull_state() {
            PushPullState::PossiblePull(prev_move_square, my_piece) => {
                if prev_move_square.as_bit_board() == crate::board::shift_in_direction(
                    new_move_square_bit,
                    direction,
                ) {
                    let their_piece = crate::board::piece_type_at_bit(
                        new_move_square_bit,
                        piece_board,
                    );
                    my_piece.is_stronger_than(their_piece)
                } else {
                    false
                }
            },
            _ => false,
        }
    }

    /// The push/pull obligation the step about to be applied leaves
    /// behind.
    fn next_push_pull_state(&self, square: &Square, direction: &Direction) -> (r: PushPullState)
        requires
            self@.wf(),
            self@.phase is Play,
            square.wf(),
        ensures
            r == spec_next_pps(self@, self@.phase->Play_0.pps, *square, *direction),
    {
        let source_square_bit = square.as_bit_board();
        let piece_board = self.piece_board.piece_board();
        let is_opponent_piece = self.is_their_piece(source_square_bit, piece_board);
        let play_phase = self.unwrap_play_phase();
        let piece_type_at_bit = crate::board::piece_type_at_bit(source_square_bit, piece_board);
        if is_opponent_piece && !self.move_can_be_counted_as_pull(
            source_square_bit,
            direction,
            piece_board,
        ) {
            PushPullState::MustCompletePush(*square, piece_type_at_bit)
        } else if !is_opponent_piece && !play_phase.push_pull_state().is_must_complete_push()
            && !matches!(piece_type_at_bit, Piece::Rabbit) {
            PushPullState::PossiblePull(*square, piece_type_at_bit)
        } else {
            PushPullState::Free
        }
    }

    /// The step boards of this move extended with the current boards.
    fn next_piece_boards_this_move(&self) -> (r: Vec<PieceBoard>)
        requires
            self@.phase is Play,
        ensures
            r@.map_values(|b: PieceBoard| b@) == self@.phase->Play_0.boards.push(self@.pb),
    {
        let play_phase = self.unwrap_play_phase();
        let prev = &play_phase.previous_piece_boards_this_move;
        let mut previous_piece_boards_this_move: Vec<PieceBoard> = Vec::new();
        let mut i: usize = 0;
        while i < prev.len()
            invariant
                i <= prev@.len(),
                previous_piece_boards_this_move@ == prev@.subrange(0, i as int),
            decreases prev@.len() - i,
        {
            previous_piece_boards_this_move.push(prev[i]);
            i = i + 1;
            proof {
                assert(previous_piece_boards_this_move@ =~= prev@.subrange(0, i as int));
            }
        }
        previous_piece_boards_this_move.push(self.piece_board);
        proof {
            assert(prev@.subrange(0, prev@.len() as int) =~= prev@);
            assert(previous_piece_boards_this_move@.map_values(|b: PieceBoard| b@)
                =~= self@.phase->Play_0.boards.push(self@.pb));
        }
        previous_piece_boards_this_move
    }

    /// Applies one step: shifts the piece, sweeps the traps, updates the
    /// hash incrementally, and commits the move if this was the fourth
    /// step.
    fn move_piece_action(&self, square: &Square, direction: &Direction) -> (r: GameState)
        requires
            self@.wf(),
            spec_move_applicable(self@, *square, *direction),
            self@.move_number + 1 <= usize::MAX,
        ensures
            r@ == spec_move_step(self@, *square, *direction),
            r@.wf(),
    {
        proof {
            crate::bits::lemma_shl_single_bit(square.0 as u64);
            lemma_shift_stays_on_board(1u64 << square.0, *direction);
            crate::board::lemma_after_move_wf(self@.pb, 1u64 << square.0, *direction);
        }
        let curr_play_phase = self.unwrap_play_phase();
        let curr_step = self.current_step();
        let is_last_step = curr_step >= 3;
        let new_action = Action::Move(*square, *direction);
        let (new_piece_board_state, new_animal_was_trapped) = self.piece_board.take_action(
            &new_action,
        );
        let new_p1_turn_to_move = if is_last_step {
            !self.p1_turn_to_move
        } else {
            self.p1_turn_to_move
        };
        let new_step = if is_last_step {
            0
        } else {
            curr_step + 1
        };
        let new_move_number = self.move_number + (if is_last_step && new_p1_turn_to_move {
            1
        } else {
            0
        });
        let new_hash = self.hash.move_piece(
            self,
            &new_piece_board_state,
            new_step,
            new_p1_turn_to_move,
        );
        let new_hash_history = if new_animal_was_trapped {
            List::new()
        } else {
            curr_play_phase.hash_history.duplicate()
        };
        let new_play_phase = if is_last_step {
            let hash_history = new_hash_history.append(new_hash);
            PlayPhase::initial(new_hash, hash_history)
        } else {
            let new_previous_piece_boards_this_move = self.next_piece_boards_this_move();
            let new_push_pull_state = self.next_push_pull_state(square, direction);
            PlayPhase {
                initial_hash_of_move: curr_play_phase.initial_hash_of_move,
                push_pull_state: new_push_pull_state,
                hash_history: new_hash_history,
                previous_piece_boards_this_move: new_previous_piece_boards_this_move,
                piece_trapped_this_turn: curr_play_phase.piece_trapped_this_turn
                    || new_animal_was_trapped,
            }
        };
        let r = GameState {
            p1_turn_to_move: new_p1_turn_to_move,
            move_number: new_move_number,
            phase: Phase::PlayPhase(new_play_phase),
            piece_board: PieceBoard::new_from_state(new_piece_board_state),
            hash: new_hash,
        };
        proof {
            let m = self@;
            let sm = spec_move_step(m, *square, *direction);
            assert(r@.phase->Play_0.boards =~= sm.phase->Play_0.boards);
            assert(r@.phase->Play_0.history =~= sm.phase->Play_0.history);
            assert(r@.phase->Play_0 == sm.phase->Play_0);
            assert(r@ == sm);
            if !is_last_step {
                let newpps = sm.phase->Play_0.pps;
                if newpps is MustCompletePush {
                    assert(!(crate::board::spec_piece_at(1u64 << square.0, m.pb) is Elephant));
                }
            }
        }
        r
    }
}

/// The side to move's piece mask.
pub open spec fn spec_curr_mask(m: StateModel) -> u64 {
    if m.p1_turn {
        m.pb.p1_pieces
    } else {
        !m.pb.p1_pieces & m.pb.all_pieces
    }
}

/// The waiting side's piece mask.
pub open spec fn spec_opp_mask(m: StateModel) -> u64 {
    if m.p1_turn {
        !m.pb.p1_pieces & m.pb.all_pieces
    } else {
        m.pb.p1_pieces
    }
}

/// The prey pieces a set of predators threatens: each predator kind
/// reaches one square and endangers every strictly weaker kind there.
pub open spec fn spec_threatened(pb: PieceBoardState, predator: u64, prey: u64) -> u64 {
    let camel_threats = crate::board::spec_influence(pb.elephants & predator);
    let horse_threats = camel_threats | crate::board::spec_influence(pb.camels & predator);
    let dog_threats = horse_threats | crate::board::spec_influence(pb.horses & predator);
    let cat_threats = dog_threats | crate::board::spec_influence(pb.dogs & predator);
    let rabbit_threats = cat_threats | crate::board::spec_influence(pb.cats & predator);
    ((pb.camels & camel_threats) | (pb.horses & horse_threats) | (pb.dogs & dog_threats) | (
    pb.cats & cat_threats) | (pb.rabbits & rabbit_threats)) & prey
}

/// The side to move's pieces that are free to move: not threatened by a
/// stronger neighbour, or supported by a friend.
pub open spec fn spec_non_frozen(m: StateModel) -> u64 {
    let opp = spec_opp_mask(m);
    let curr = !opp & m.pb.all_pieces;
    curr & (!spec_threatened(m.pb, opp, curr) | crate::board::spec_supported(curr))
}

/// The squares whose neighbour in `direction` is empty.
pub open spec fn spec_can_move_dir(pb: PieceBoardState, direction: Direction) -> u64 {
    crate::board::spec_shift_pieces_opp(!pb.all_pieces, direction)
}

/// The side to move's rabbits, when the direction is their backward one.
pub open spec fn spec_invalid_rabbit_moves(m: StateModel, direction: Direction) -> u64 {
    let backward = if m.p1_turn {
        Direction::Down
    } else {
        Direction::Up
    };
    if direction == backward {
        (if m.p1_turn {
            m.pb.p1_pieces
        } else {
            !m.pb.p1_pieces
        }) & m.pb.rabbits
    } else {
        0u64
    }
}

/// The pieces strictly weaker than the given one, both sides together.
pub open spec fn spec_lesser_pieces(pb: PieceBoardState, piece: Piece) -> u64 {
    match piece {
        Piece::Rabbit => 0u64,
        Piece::Cat => pb.rabbits,
        Piece::Dog => pb.rabbits | pb.cats,
        Piece::Horse => pb.rabbits | pb.cats | pb.dogs,
        Piece::Camel => pb.rabbits | pb.cats | pb.dogs | pb.horses,
        Piece::Elephant => pb.rabbits | pb.cats | pb.dogs | pb.horses | pb.camels,
    }
}

/// The step actions of all set bits of a mask in one direction, in
/// square order.
pub open spec fn spec_moves_for(mask: u64, direction: Direction) -> Seq<Action> {
    crate::action::spec_squares(mask).map_values(|s: Square| Action::Move(s, direction))
}

/// The mask of ordinary moves in one direction: pieces free to move with
/// an empty landing square, rabbits barred from retreating.
pub open spec fn spec_ordinary_mask(m: StateModel, direction: Direction) -> u64 {
    spec_can_move_dir(m.pb, direction) & spec_non_frozen(m) & !spec_invalid_rabbit_moves(
        m,
        direction,
    )
}

/// Every ordinary single-step move, direction by direction.
pub open spec fn spec_ordinary_moves(m: StateModel) -> Seq<Action> {
    spec_moves_for(spec_ordinary_mask(m, Direction::Up), Direction::Up) + spec_moves_for(
        spec_ordinary_mask(m, Direction::Right),
        Direction::Right,
    ) + spec_moves_for(spec_ordinary_mask(m, Direction::Down), Direction::Down) + spec_moves_for(
        spec_ordinary_mask(m, Direction::Left),
        Direction::Left,
    )
}

/// The mask of push openers in one direction: threatened enemy pieces
/// with an empty square beyond.
pub open spec fn spec_push_mask(m: StateModel, direction: Direction) -> u64 {
    spec_can_move_dir(m.pb, direction) & spec_threatened(
        m.pb,
        spec_non_frozen(m),
        spec_opp_mask(m),
    )
}

/// Every push-opening move: only while no push is pending and before the
/// final step of the move.
pub open spec fn spec_push_moves(m: StateModel) -> Seq<Action> {
    let p = m.phase->Play_0;
    if !(p.pps is MustCompletePush) && p.boards.len() < 3 {
        spec_moves_for(spec_push_mask(m, Direction::Up), Direction::Up) + spec_moves_for(
            spec_push_mask(m, Direction::Right),
            Direction::Right,
        ) + spec_moves_for(spec_push_mask(m, Direction::Down), Direction::Down) + spec_moves_for(
            spec_push_mask(m, Direction::Left),
            Direction::Left,
        )
    } else {
        Seq::<Action>::empty()
    }
}

/// The pull follow-up available in one direction, if any: a weaker enemy
/// piece whose step in `direction` lands on the vacated square.
pub open spec fn spec_pull_candidate(
    m: StateModel,
    sq: Square,
    piece: Piece,
    direction: Direction,
) -> Option<Action> {
    let lesser_opp = spec_lesser_pieces(m.pb, piece) & spec_opp_mask(m);
    let square_bit = 1u64 << sq.0;
    if crate::board::spec_shift_pieces(lesser_opp, direction) & square_bit != 0 {
        Some(
            Action::Move(
                Square(
                    vstd::std_specs::bits::u64_trailing_zeros(
                        crate::board::spec_shift_pieces_opp(square_bit, direction),
                    ) as u8,
                ),
                direction,
            ),
        )
    } else {
        None
    }
}

/// Appends a pull candidate unless the action is already present.
pub open spec fn spec_push_unique(acc: Seq<Action>, c: Option<Action>) -> Seq<Action> {
    match c {
        Some(a) => if acc.contains(a) {
            acc
        } else {
            acc.push(a)
        },
        None => acc,
    }
}

/// Extends a list of actions with the pull follow-ups of the open pull
/// opportunity, skipping duplicates of actions already present.
pub open spec fn spec_with_pulls(m: StateModel, acc: Seq<Action>) -> Seq<Action> {
    let p = m.phase->Play_0;
    match p.pps {
        PushPullState::PossiblePull(sq, piece) => {
            let a0 = spec_push_unique(acc, spec_pull_candidate(m, sq, piece, Direction::Up));
            let a1 = spec_push_unique(a0, spec_pull_candidate(m, sq, piece, Direction::Right));
            let a2 = spec_push_unique(a1, spec_pull_candidate(m, sq, piece, Direction::Down));
            spec_push_unique(a2, spec_pull_candidate(m, sq, piece, Direction::Left))
        },
        _ => acc,
    }
}

/// The completing move of a pending push from one side, if any: a
/// stronger unfrozen piece of the side to move stepping into the pushed
/// piece's old square from that side.
pub open spec fn spec_must_complete_candidate(
    m: StateModel,
    sq: Square,
    pushed: Piece,
    direction: Direction,
) -> Option<Action> {
    let square_bit = 1u64 << sq.0;
    let pushing_piece_bit = crate::board::spec_shift_pieces_opp(square_bit, direction)
        & spec_non_frozen(m);
    if pushing_piece_bit != 0 && crate::board::spec_piece_at(
        pushing_piece_bit,
        m.pb,
    ).spec_strength() > pushed.spec_strength() {
        Some(
            Action::Move(
                Square(vstd::std_specs::bits::u64_trailing_zeros(pushing_piece_bit) as u8),
                direction,
            ),
        )
    } else {
        None
    }
}

/// Appends an optional action.
pub open spec fn spec_push_opt(acc: Seq<Action>, c: Option<Action>) -> Seq<Action> {
    match c {
        Some(a) => acc.push(a),
        None => acc,
    }
}

/// The only legal actions while a push awaits completion.
pub open spec fn spec_must_complete_actions(m: StateModel) -> Seq<Action> {
    let p = m.phase->Play_0;
    match p.pps {
        PushPullState::MustCompletePush(sq, pushed) => {
            let a0 = spec_push_opt(
                Seq::<Action>::empty(),
                spec_must_complete_candidate(m, sq, pushed, Direction::Up),
            );
            let a1 = spec_push_opt(a0, spec_must_complete_candidate(m, sq, pushed, Direction::Right));
            let a2 = spec_push_opt(a1, spec_must_complete_candidate(m, sq, pushed, Direction::Down));
            spec_push_opt(a2, spec_must_complete_candidate(m, sq, pushed, Direction::Left))
        },
        _ => Seq::<Action>::empty(),
    }
}

/// The number of set bits of `b` below `n`.
pub open spec fn spec_count_bits(b: u64, n: nat) -> nat
    decreases n,
{
    if n == 0 {
        0
    } else {
        spec_count_bits(b, (n - 1) as nat) + (if (b >> ((n - 1) as u64)) & 1u64 == 1u64 {
            1nat
        } else {
            0nat
        })
    }
}

/// The placements whose quota is still open: one Elephant and Camel, two
/// Horses, Dogs and Cats, eight Rabbits per side.
pub open spec fn spec_valid_placement(m: StateModel) -> Seq<Action> {
    let curr = spec_curr_mask(m);
    let s0 = Seq::<Action>::empty();
    let s1 = if m.pb.elephants & curr == 0 {
        s0.push(Action::Place(Piece::Elephant))
    } else {
        s0
    };
    let s2 = if m.pb.camels & curr == 0 {
        s1.push(Action::Place(Piece::Camel))
    } else {
        s1
    };
    let s3 = if spec_count_bits(m.pb.horses & curr, 64) < 2 {
        s2.push(Action::Place(Piece::Horse))
    } else {
        s2
    };
    let s4 = if spec_count_bits(m.pb.dogs & curr, 64) < 2 {
        s3.push(Action::Place(Piece::Dog))
    } else {
        s3
    };
    let s5 = if spec_count_bits(m.pb.cats & curr, 64) < 2 {
        s4.push(Action::Place(Piece::Cat))
    } else {
        s4
    };
    if spec_count_bits(m.pb.rabbits & curr, 64) < 8 {
        s5.push(Action::Place(Piece::Rabbit))
    } else {
        s5
    }
}

/// The hash of the current position read back at step zero.
pub open spec fn spec_exclude_step_hash(m: StateModel) -> u64 {
    m.hash ^ crate::zobrist::spec_step_value(0) ^ crate::zobrist::spec_step_value(m.step())
}

/// The end-of-move hash a pass right now would commit.
pub open spec fn spec_pass_hash(m: StateModel) -> u64 {
    m.hash ^ crate::zobrist::spec_player_value() ^ crate::zobrist::spec_step_value(0)
        ^ crate::zobrist::spec_step_value(m.step())
}

/// When the side to move may pass: at least one step taken, no push
/// pending, and (with repetition checks on) the move has changed the
/// position and would not commit a third repetition.
pub open spec fn spec_can_pass(m: StateModel, check_repetitions: bool) -> bool {
    match m.phase {
        PhaseModel::Play(p) => p.boards.len() >= 1 && !(p.pps is MustCompletePush) && (
        !check_repetitions || (p.initial_hash != spec_exclude_step_hash(m)
            && crate::list::spec_count_matches(p.history, spec_pass_hash(m)) < 2)),
        PhaseModel::Place => false,
    }
}

/// The end-of-move hash that applying this step now and ending the move
/// would produce, with or without handing the turn over.
pub open spec fn spec_step_end_hash(
    m: StateModel,
    square: Square,
    direction: Direction,
    switch_players: bool,
) -> u64 {
    let new_pb = m.pb.spec_after_move(1u64 << square.0, direction);
    m.hash ^ (if switch_players {
        crate::zobrist::spec_player_value()
    } else {
        0u64
    }) ^ (crate::zobrist::spec_board_fold(m.pb) ^ crate::zobrist::spec_board_fold(new_pb)) ^ (
    crate::zobrist::spec_step_value(m.step()) ^ crate::zobrist::spec_step_value(0))
}

/// A passing-like step: committing it would reproduce the position the
/// move started from, or commit an end-of-move position for the third
/// time.
pub open spec fn spec_is_passing_like(m: StateModel, action: Action) -> bool {
    match action {
        Action::Move(square, direction) => {
            let p = m.phase->Play_0;
            spec_step_end_hash(m, square, direction, false) == p.initial_hash
                || crate::list::spec_count_matches(
                p.history,
                spec_step_end_hash(m, square, direction, true),
            ) >= 2
        },
        _ => false,
    }
}

/// The actions that survive the step-three repetition filter.
pub open spec fn spec_filter_passing(m: StateModel, s: Seq<Action>) -> Seq<Action>
    decreases s.len(),
{
    if s.len() == 0 {
        Seq::<Action>::empty()
    } else {
        spec_filter_passing(m, s.drop_last()) + (if spec_is_passing_like(m, s.last()) {
            Seq::<Action>::empty()
        } else {
            seq![s.last()]
        })
    }
}

/// Whether the repetition filter acts at all: only on the final step of
/// a move that trapped nothing.
pub open spec fn spec_filter_applies(m: StateModel) -> bool {
    m.step() == 3 && !m.trapped_this_turn()
}

/// The legal actions of the position, with or without the repetition
/// filter.
pub open spec fn spec_valid_actions(m: StateModel, check_repetitions: bool) -> Seq<Action> {
    match m.phase {
        PhaseModel::Play(p) => {
            let base = if p.pps is MustCompletePush {
                spec_must_complete_actions(m)
            } else {
                let with_pushes = spec_push_moves(m);
                let with_pulls = spec_with_pulls(m, with_pushes);
                let with_ordinary = with_pulls + spec_ordinary_moves(m);
                if spec_can_pass(m, check_repetitions) {
                    with_ordinary.push(Action::Pass)
                } else {
                    with_ordinary
                }
            };
            if check_repetitions && spec_filter_applies(m) {
                spec_filter_passing(m, base)
            } else {
                base
            }
        },
        PhaseModel::Place => spec_valid_placement(m),
    }
}

/// Whether a list still offers an action that is not passing-like at the
/// final step of an untrapping move.
pub open spec fn spec_has_non_passing_like(m: StateModel, s: Seq<Action>) -> bool {
    s.len() > 0 && (m.step() < 3 || m.trapped_this_turn() || exists|i: int|
        0 <= i < s.len() && !spec_is_passing_like(m, s[i]))
}

/// Whether the side to move still has any playable continuation.
pub open spec fn spec_has_move(m: StateModel) -> bool {
    match m.phase {
        PhaseModel::Play(p) => {
            if p.pps is MustCompletePush {
                spec_has_non_passing_like(m, spec_must_complete_actions(m))
            } else if spec_can_pass(m, true) {
                true
            } else if spec_has_non_passing_like(m, spec_ordinary_moves(m)) {
                true
            } else if spec_has_non_passing_like(
                m,
                spec_with_pulls(m, Seq::<Action>::empty()),
            ) {
                true
            } else {
                spec_has_non_passing_like(m, spec_push_moves(m))
            }
        },
        PhaseModel::Place => true,
    }
}

/// Whoever last moved wins when the side to move is out of moves.
pub open spec fn spec_no_move_terminal(m: StateModel) -> Option<Terminal> {
    if spec_has_move(m) {
        None
    } else if m.p1_turn {
        Some(Terminal::SilverWin)
    } else {
        Some(Terminal::GoldWin)
    }
}

/// The goal check: a rabbit standing on its own goal row decides the
/// game, ties going to whoever just moved.
pub open spec fn spec_rabbit_at_goal(m: StateModel) -> Option<Terminal> {
    let p1_objective_met = m.pb.p1_pieces & m.pb.rabbits & crate::bits::P1_OBJECTIVE_MASK != 0;
    let p2_objective_met = !m.pb.p1_pieces & m.pb.rabbits & crate::bits::P2_OBJECTIVE_MASK != 0;
    if p1_objective_met || p2_objective_met {
        let last_to_move_is_p1 = !m.p1_turn;
        let last_to_move_objective_met = if last_to_move_is_p1 {
            p1_objective_met
        } else {
            p2_objective_met
        };
        if !(last_to_move_is_p1 ^ last_to_move_objective_met) {
            Some(Terminal::GoldWin)
        } else {
            Some(Terminal::SilverWin)
        }
    } else {
        None
    }
}

/// The rabbit-loss check: a side with no rabbit left loses, ties going
/// to whoever just moved.
pub open spec fn spec_lost_all_rabbits(m: StateModel) -> Option<Terminal> {
    let p1_lost_rabbits = m.pb.p1_pieces & m.pb.rabbits == 0;
    let p2_lost_rabbits = !m.pb.p1_pieces & m.pb.rabbits == 0;
    if p1_lost_rabbits || p2_lost_rabbits {
        let last_to_move_is_p1 = !m.p1_turn;
        let last_to_move_objective_met = if last_to_move_is_p1 {
            p2_lost_rabbits
        } else {
            p1_lost_rabbits
        };
        if !(last_to_move_is_p1 ^ last_to_move_objective_met) {
            Some(Terminal::GoldWin)
        } else {
            Some(Terminal::SilverWin)
        }
    } else {
        None
    }
}

/// The terminal state of a position, if the game is over: checked at the
/// turn boundary in the order goal, rabbit loss, no move; mid-turn only
/// a stuck side ends the game.
pub open spec fn spec_is_terminal(m: StateModel) -> Option<Terminal> {
    match m.phase {
        PhaseModel::Play(p) => {
            if p.boards.len() > 0 {
                spec_no_move_terminal(m)
            } else if spec_rabbit_at_goal(m) is Some {
                spec_rabbit_at_goal(m)
            } else if spec_lost_all_rabbits(m) is Some {
                spec_lost_all_rabbits(m)
            } else {
                spec_no_move_terminal(m)
            }
        },
        PhaseModel::Place => None,
    }
}

/// The push/pull-aware transposition hash of a position.
pub open spec fn spec_transposition_hash(m: StateModel) -> u64 {
    match m.phase {
        PhaseModel::Play(p) => m.hash ^ crate::zobrist::spec_push_pull_hash(p.pps),
        PhaseModel::Place => m.hash,
    }
}

/// The square, piece and owner of the animal a step would trap, if any:
/// the lowest trapped bit after the shift, before the sweep runs.
pub open spec fn spec_trapped_animal_for_action(m: StateModel, action: Action) -> Option<
    (Square, Piece, bool),
> {
    match action {
        Action::Move(square, direction) => {
            let moved = m.pb.spec_move_all(1u64 << square.0, direction);
            let t = crate::board::spec_trapped_bits(moved);
            if t != 0 {
                let sq = Square(vstd::std_specs::bits::u64_trailing_zeros(t) as u8);
                let piece = crate::board::spec_piece_at(1u64 << sq.0, moved);
                let is_p1 = moved.spec_bits_for_piece(piece, true) & (1u64 << sq.0) != 0;
                Some((sq, piece, is_p1))
            } else {
                None
            }
        },
        _ => None,
    }
}

/// Every move a generator emits names a real square away from the edge
/// its direction runs over.
pub open spec fn spec_move_shape_ok(action: Action) -> bool {
    match action {
        Action::Move(sq, d) => sq.wf() && (1u64 << sq.0) & crate::board::spec_edge_mask(d) == 0,
        _ => true,
    }
}

/// A list of actions whose moves are all well shaped.
pub open spec fn spec_all_moves_ok(s: Seq<Action>) -> bool {
    forall|i: int| 0 <= i < s.len() ==> spec_move_shape_ok(#[trigger] s[i])
}

/// A board holds at most `n` set bits below `n`.
proof fn lemma_count_le(b: u64, n: nat)
    ensures
        spec_count_bits(b, n) <= n,
    decreases n,
{
    if n != 0 {
        lemma_count_le(b, (n - 1) as nat);
    }
}

/// A board with no set bits below `n` counts to zero.
proof fn lemma_count_empty(b: u64, n: nat)
    requires
        n <= 64,
        forall|j: u64| j < n ==> #[trigger] (b >> j) & 1u64 == 0u64,
    ensures
        spec_count_bits(b, n) == 0,
    decreases n,
{
    if n != 0 {
        lemma_count_empty(b, (n - 1) as nat);
        assert((b >> ((n - 1) as u64)) & 1u64 == 0u64);
    }
}

/// Clearing bit `i` lowers the count by one, provided every bit below
/// `i` is already clear.
proof fn lemma_count_split(b: u64, i: u64, n: nat)
    requires
        i < 64,
        n <= 64,
        (b >> i) & 1u64 == 1u64,
        forall|j: u64| j < i ==> #[trigger] (b >> j) & 1u64 == 0u64,
    ensures
        spec_count_bits(b, n) == (if n > i {
            1nat + spec_count_bits(b & !(1u64 << i), n)
        } else {
            0nat
        }),
    decreases n,
{
    let b2 = b & !(1u64 << i);
    crate::bits::lemma_clear_bit_facts(b, i);
    if n == 0 {
    } else {
        lemma_count_split(b, i, (n - 1) as nat);
        if n - 1 < i {
            assert((b >> ((n - 1) as u64)) & 1u64 == 0u64);
        } else if n - 1 == i {
            assert(forall|j: u64| j < (n - 1) as u64 ==> #[trigger] (b2 >> j) & 1u64 == 0u64);
            lemma_count_empty(b2, (n - 1) as nat);
            lemma_count_empty(b, (n - 1) as nat);
        } else {
            assert((b2 >> ((n - 1) as u64)) & 1u64 == (b >> ((n - 1) as u64)) & 1u64);
        }
    }
}

/// Counts the set bits of a board.
fn count_set_bits(b: u64) -> (r: u32)
    ensures
        r == spec_count_bits(b, 64),
{
    let mut b = b;
    let ghost orig = b;
    let mut count: u32 = 0;
    proof {
        assert(forall|j: u64| j < 64 ==> #[trigger] (0u64 >> j) & 1u64 == 0u64) by (bit_vector);
    }
    proof {
        lemma_count_le(orig, 64);
        lemma_count_le(b, 64);
    }
    while b != 0
        invariant
            count + spec_count_bits(b, 64) == spec_count_bits(orig, 64),
            spec_count_bits(orig, 64) <= 64,
        decreases b,
    {
        proof {
            vstd::std_specs::bits::axiom_u64_trailing_zeros(b);
            crate::bits::lemma_clear_low_bit(b);
            lemma_count_split(b, vstd::std_specs::bits::u64_trailing_zeros(b) as u64, 64);
        }
        let tz: u32 = b.trailing_zeros();
        b = b ^ (1u64 << (tz as u64));
        count = count + 1;
    }
    proof {
        lemma_count_empty(0u64, 64);
    }
    count
}

/// A set bit of a mask that avoids an edge also avoids it on its own.
proof fn lemma_bit_in_mask(mask: u64, i: u64, edge: u64)
    by (bit_vector)
    requires
        i < 64,
        (mask >> i) & 1u64 == 1u64,
        mask & edge == 0,
    ensures
        (1u64 << i) & edge == 0,
{
}

/// The against-direction shift image avoids the edge its direction runs
/// over, and a single bit passing through it stays single.
proof fn lemma_opp_image_off_edge(b: u64, direction: Direction)
    ensures
        crate::board::spec_shift_pieces_opp(b, direction) & crate::board::spec_edge_mask(direction)
            == 0,
{
    match direction {
        Direction::Up => lemma_dir_bits_up(1, 0, b),
        Direction::Right => lemma_dir_bits_right(1, 0, b),
        Direction::Down => lemma_dir_bits_down(1, 0, b),
        Direction::Left => lemma_dir_bits_left(1, 0, b),
    }
}

/// What holds of the square a pull comes from: the guard that some
/// lesser piece shifts onto the vacated square guarantees the vacated
/// square's against-shift is a real single square off the direction's
/// edge.
proof fn lemma_pull_source(s: u64, x: u64, direction: Direction)
    requires
        crate::bits::is_single_bit(s),
        crate::board::spec_shift_pieces(x, direction) & s != 0,
    ensures
        crate::board::spec_shift_pieces_opp(s, direction) != 0,
        crate::bits::is_single_bit(crate::board::spec_shift_pieces_opp(s, direction)),
{
    match direction {
        Direction::Up => lemma_dir_bits_up(s, x, 0),
        Direction::Right => lemma_dir_bits_right(s, x, 0),
        Direction::Down => lemma_dir_bits_down(s, x, 0),
        Direction::Left => lemma_dir_bits_left(s, x, 0),
    }
}

/// A nonzero intersection with a single-bit board is that whole board.
proof fn lemma_single_bit_and(s: u64, mask: u64)
    by (bit_vector)
    requires
        s != 0,
        s & ((s - 1) as u64) == 0,
        s & mask != 0,
    ensures
        s & mask == s,
        (s & mask) & (((s & mask) - 1) as u64) == 0,
{
}

/// True when the vector already holds the action.
fn contains_action(v: &Vec<Action>, a: &Action) -> (r: bool)
    ensures
        r == v@.contains(*a),
{
    let mut i: usize = 0;
    while i < v.len()
        invariant
            i <= v@.len(),
            forall|k: int| 0 <= k < i ==> v@[k] != *a,
        decreases v@.len() - i,
    {
        if v[i] == *a {
            assert(v@.contains(*a));
            return true;
        }
        i = i + 1;
    }
    assert(!v@.contains(*a)) by {
        if v@.contains(*a) {
            let k = choose|k: int| 0 <= k < v@.len() && v@[k] == *a;
            assert(v@[k] != *a);
        }
    }
    false
}

/// True when the given hash already stands twice in the history.
fn hash_history_contains_hash_twice(hash_history: &List<Zobrist>, hash: &Zobrist) -> (r: bool)
    ensures
        r == (crate::list::spec_count_matches(
            hash_history@.map_values(|z: Zobrist| z.spec_hash()),
            hash.spec_hash(),
        ) >= 2),
{
    let ghost mapped = hash_history@.map_values(|z: Zobrist| z.spec_hash());
    let n = hash_history.len();
    let mut count: usize = 0;
    let mut i: usize = 0;
    while i < n
        invariant
            i <= n == hash_history@.len(),
            mapped == hash_history@.map_values(|z: Zobrist| z.spec_hash()),
            count == crate::list::spec_count_matches(
                mapped.subrange(0, i as int),
                hash.spec_hash(),
            ),
            count <= i,
        decreases n - i,
    {
        proof {
            assert(mapped.subrange(0, i + 1).drop_last() =~= mapped.subrange(0, i as int));
            assert(mapped.subrange(0, i + 1).last() == mapped[i as int]);
        }
        let z = hash_history.get(i);
        if z.board_state_hash() == hash.board_state_hash() {
            count = count + 1;
        }
        i = i + 1;
    }
    proof {
        assert(mapped.subrange(0, mapped.len() as int) =~= mapped);
    }
    count >= 2
}

/// Moves of squares taken from a mask that avoids the direction's edge
/// are all well shaped.
proof fn lemma_moves_for_ok(mask: u64, direction: Direction)
    requires
        mask & crate::board::spec_edge_mask(direction) == 0,
    ensures
        spec_all_moves_ok(spec_moves_for(mask, direction)),
{
    crate::action::lemma_squares_upto_wf(mask, 64);
    crate::action::lemma_squares_upto_bits(mask, 64);
    let s = spec_moves_for(mask, direction);
    assert forall|i: int| 0 <= i < s.len() implies spec_move_shape_ok(#[trigger] s[i]) by {
        let sq = crate::action::spec_squares(mask)[i];
        assert((mask >> (sq.0 as u64)) & 1u64 == 1u64);
        lemma_bit_in_mask(mask, sq.0 as u64, crate::board::spec_edge_mask(direction));
    }
}

impl GameState {
    /// The side to move's piece mask.
    fn curr_player_piece_mask(&self, piece_board: &PieceBoardState) -> (r: u64)
        requires
            *piece_board == self@.pb,
        ensures
            r == spec_curr_mask(self@),
    {
        if self.p1_turn_to_move {
            piece_board.p1_pieces
        } else {
            !piece_board.p1_pieces & piece_board.all_pieces
        }
    }

    /// The waiting side's piece mask.
    fn opponent_piece_mask(&self, piece_board: &PieceBoardState) -> (r: u64)
        requires
            *piece_board == self@.pb,
        ensures
            r == spec_opp_mask(self@),
    {
        if self.p1_turn_to_move {
            !piece_board.p1_pieces & piece_board.all_pieces
        } else {
            piece_board.p1_pieces
        }
    }

    /// The prey pieces threatened by the given predators, computed with
    /// the strength cascade.
    fn threatened_pieces(
        &self,
        predator_piece_mask: u64,
        prey_piece_mask: u64,
        piece_board: &PieceBoardState,
    ) -> (r: u64)
        ensures
            r == spec_threatened(*piece_board, predator_piece_mask, prey_piece_mask),
    {
        let predator_elephant_influence = crate::board::influenced_squares(
            piece_board.elephants & predator_piece_mask,
        );
        let predator_camel_influence = crate::board::influenced_squares(
            piece_board.camels & predator_piece_mask,
        );
        let predator_horse_influence = crate::board::influenced_squares(
            piece_board.horses & predator_piece_mask,
        );
        let predator_dog_influence = crate::board::influenced_squares(
            piece_board.dogs & predator_piece_mask,
        );
        let predator_cat_influence = crate::board::influenced_squares(
            piece_board.cats & predator_piece_mask,
        );
        let camel_threats = predator_elephant_influence;
        let horse_threats = camel_threats | predator_camel_influence;
        let dog_threats = horse_threats | predator_horse_influence;
        let cat_threats = dog_threats | predator_dog_influence;
        let rabbit_threats = cat_threats | predator_cat_influence;
        let threatened_pieces = (piece_board.camels & camel_threats) | (piece_board.horses
            & horse_threats) | (piece_board.dogs & dog_threats) | (piece_board.cats & cat_threats)
            | (piece_board.rabbits & rabbit_threats);
        threatened_pieces & prey_piece_mask
    }

    /// The side to move's pieces that are not frozen.
    fn curr_player_non_frozen_pieces(&self, piece_board: &PieceBoardState) -> (r: u64)
        requires
            *piece_board == self@.pb,
        ensures
            r == spec_non_frozen(self@),
    {
        let opp_piece_mask = self.opponent_piece_mask(piece_board);
        let curr_player_piece_mask = !opp_piece_mask & piece_board.all_pieces;
        let threatened_pieces = self.threatened_pieces(
            opp_piece_mask,
            curr_player_piece_mask,
            piece_board,
        );
        curr_player_piece_mask & (!threatened_pieces | crate::board::supported_pieces(
            curr_player_piece_mask,
        ))
    }

    /// The side to move's rabbits when the direction would be a retreat.
    fn invalid_rabbit_moves(&self, direction: &Direction, piece_board: &PieceBoardState) -> (r:
        u64)
        requires
            *piece_board == self@.pb,
        ensures
            r == spec_invalid_rabbit_moves(self@, *direction),
    {
        let backward_direction = if self.p1_turn_to_move {
            Direction::Down
        } else {
            Direction::Up
        };
        if *direction == backward_direction {
            (if self.p1_turn_to_move {
                piece_board.p1_pieces
            } else {
                !piece_board.p1_pieces
            }) & piece_board.rabbits
        } else {
            0
        }
    }

    /// The pieces strictly weaker than the given one.
    fn lesser_pieces(&self, piece: Piece, piece_board: &PieceBoardState) -> (r: u64)
        ensures
            r == spec_lesser_pieces(*piece_board, piece),
    {
        match piece {
            Piece::Rabbit => 0,
            Piece::Cat => piece_board.rabbits,
            Piece::Dog => piece_board.rabbits | piece_board.cats,
            Piece::Horse => piece_board.rabbits | piece_board.cats | piece_board.dogs,
            Piece::Camel => piece_board.rabbits | piece_board.cats | piece_board.dogs
                | piece_board.horses,
            Piece::Elephant => piece_board.rabbits | piece_board.cats | piece_board.dogs
                | piece_board.horses | piece_board.camels,
        }
    }

    /// Appends the moves of every set bit of a mask in one direction.
    fn extend_moves(
        valid_actions: &mut Vec<Action>,
        valid_curr_piece_moves: u64,
        direction: &Direction,
    )
        requires
            valid_curr_piece_moves & crate::board::spec_edge_mask(*direction) == 0,
            spec_all_moves_ok(old(valid_actions)@),
        ensures
            final(valid_actions)@ == old(valid_actions)@ + spec_moves_for(
                valid_curr_piece_moves,
                *direction,
            ),
            spec_all_moves_ok(final(valid_actions)@),
    {
        let ghost base = valid_actions@;
        let ghost target = spec_moves_for(valid_curr_piece_moves, *direction);
        proof {
            lemma_moves_for_ok(valid_curr_piece_moves, *direction);
        }
        let squares = crate::action::map_bit_board_to_squares(valid_curr_piece_moves);
        let mut i: usize = 0;
        proof {
            assert(valid_actions@ =~= base + target.subrange(0, 0));
        }
        while i < squares.len()
            invariant
                i <= squares@.len(),
                squares@ == crate::action::spec_squares(valid_curr_piece_moves),
                target == spec_moves_for(valid_curr_piece_moves, *direction),
                valid_actions@ == base + target.subrange(0, i as int),
                spec_all_moves_ok(base),
                spec_all_moves_ok(target),
                spec_all_moves_ok(valid_actions@),
            decreases squares@.len() - i,
        {
            valid_actions.push(Action::Move(squares[i], *direction));
            i = i + 1;
            proof {
                assert(valid_actions@ =~= base + target.subrange(0, i as int));
            }
        }
        proof {
            assert(target.subrange(0, target.len() as int) =~= target);
        }
    }

    /// Appends every ordinary move of the side to move: each unfrozen
    /// piece with an empty neighbour, rabbits never retreating.
    fn extend_with_valid_curr_player_piece_moves(
        &self,
        valid_actions: &mut Vec<Action>,
        piece_board: &PieceBoardState,
    )
        requires
            *piece_board == self@.pb,
            spec_all_moves_ok(old(valid_actions)@),
        ensures
            final(valid_actions)@ == old(valid_actions)@ + spec_ordinary_moves(self@),
            spec_all_moves_ok(final(valid_actions)@),
    {
        let non_frozen_pieces = self.curr_player_non_frozen_pieces(piece_board);
        let dirs: [Direction; 4] = [Direction::Up, Direction::Right, Direction::Down, Direction::Left];
        let ghost base = valid_actions@;
        let mut k: usize = 0;
        while k < 4
            invariant
                k <= 4,
                *piece_board == self@.pb,
                non_frozen_pieces == spec_non_frozen(self@),
                dirs@ =~= seq![Direction::Up, Direction::Right, Direction::Down, Direction::Left],
                spec_all_moves_ok(valid_actions@),
                valid_actions@ == base + spec_ordinary_prefix(self@, k as int),
            decreases 4 - k,
        {
            let direction = &dirs[k];
            let unoccupied_directions = can_move_in_direction(direction, piece_board);
            let invalid_rabbit_moves = self.invalid_rabbit_moves(direction, piece_board);
            let valid_curr_piece_moves = unoccupied_directions & non_frozen_pieces
                & !invalid_rabbit_moves;
            proof {
                lemma_opp_image_off_edge(!piece_board.all_pieces, *direction);
                lemma_mask_subset_off_edge(
                    spec_can_move_dir(self@.pb, *direction),
                    non_frozen_pieces,
                    !spec_invalid_rabbit_moves(self@, *direction),
                    crate::board::spec_edge_mask(*direction),
                );
            }
            Self::extend_moves(valid_actions, valid_curr_piece_moves, direction);
            k = k + 1;
            proof {
                assert(valid_actions@ =~= base + spec_ordinary_prefix(self@, k as int));
            }
        }
        proof {
            assert(spec_ordinary_prefix(self@, 4) =~= spec_ordinary_moves(self@));
        }
    }
}

impl GameState {
    /// Appends the pull follow-ups of the open pull opportunity, if any,
    /// skipping actions already present.
    fn extend_with_pull_piece_actions(
        &self,
        valid_actions: &mut Vec<Action>,
        piece_board: &PieceBoardState,
    )
        requires
            self@.wf(),
            self@.phase is Play,
            *piece_board == self@.pb,
            spec_all_moves_ok(old(valid_actions)@),
        ensures
            final(valid_actions)@ == spec_with_pulls(self@, old(valid_actions)@),
            spec_all_moves_ok(final(valid_actions)@),
    {
        let play_phase = self.unwrap_play_phase();
        match play_phase.push_pull_state().as_possible_pull() {
            Some((square, piece)) => {
                let opp_piece_mask = self.opponent_piece_mask(piece_board);
                let lesser_opp_pieces = self.lesser_pieces(piece, piece_board) & opp_piece_mask;
                let square_bit = square.as_bit_board();
                self.pull_dir(valid_actions, lesser_opp_pieces, square_bit, square, piece, &Direction::Up);
                self.pull_dir(valid_actions, lesser_opp_pieces, square_bit, square, piece, &Direction::Right);
                self.pull_dir(valid_actions, lesser_opp_pieces, square_bit, square, piece, &Direction::Down);
                self.pull_dir(valid_actions, lesser_opp_pieces, square_bit, square, piece, &Direction::Left);
            },
            None => {},
        }
    }

    /// Appends the pull follow-up of one direction, if it exists and is
    /// not already listed.
    fn pull_dir(
        &self,
        valid_actions: &mut Vec<Action>,
        lesser_opp_pieces: u64,
        square_bit: u64,
        square: Square,
        piece: Piece,
        direction: &Direction,
    )
        requires
            self@.wf(),
            self@.phase is Play,
            self@.phase->Play_0.pps == PushPullState::PossiblePull(square, piece),
            square_bit == 1u64 << square.0,
            square.wf(),
            lesser_opp_pieces == spec_lesser_pieces(self@.pb, piece) & spec_opp_mask(self@),
            spec_all_moves_ok(old(valid_actions)@),
        ensures
            final(valid_actions)@ == spec_push_unique(
                old(valid_actions)@,
                spec_pull_candidate(self@, square, piece, *direction),
            ),
            spec_all_moves_ok(final(valid_actions)@),
    {
        if crate::board::shift_pieces_in_direction(lesser_opp_pieces, direction) & square_bit
            != 0 {
            proof {
                crate::bits::lemma_shl_single_bit(square.0 as u64);
                lemma_pull_source(square_bit, lesser_opp_pieces, *direction);
                lemma_opp_image_off_edge(square_bit, *direction);
                vstd::std_specs::bits::axiom_u64_trailing_zeros(
                    crate::board::spec_shift_pieces_opp(square_bit, *direction),
                );
                crate::bits::lemma_single_bit_form(
                    crate::board::spec_shift_pieces_opp(square_bit, *direction),
                );
                lemma_bit_in_mask(
                    crate::board::spec_shift_pieces_opp(square_bit, *direction),
                    vstd::std_specs::bits::u64_trailing_zeros(
                        crate::board::spec_shift_pieces_opp(square_bit, *direction),
                    ) as u64,
                    crate::board::spec_edge_mask(*direction),
                );
            }
            let source_opp_piece_square = Square::from_bit_board(
                crate::board::shift_pieces_in_opp_direction(square_bit, direction),
            );
            let action = Action::Move(source_opp_piece_square, *direction);
            if !contains_action(valid_actions, &action) {
                valid_actions.push(action);
            }
        }
    }

    /// Appends every push-opening move: threatened enemy pieces with an
    /// empty square beyond, while no push is pending and the move has a
    /// step to spare.
    fn extend_with_push_piece_actions(
        &self,
        valid_actions: &mut Vec<Action>,
        piece_board: &PieceBoardState,
    )
        requires
            self@.wf(),
            self@.phase is Play,
            *piece_board == self@.pb,
            spec_all_moves_ok(old(valid_actions)@),
        ensures
            final(valid_actions)@ == old(valid_actions)@ + spec_push_moves(self@),
            spec_all_moves_ok(final(valid_actions)@),
    {
        let play_phase = self.unwrap_play_phase();
        if play_phase.push_pull_state().can_push() && play_phase.step() < 3 {
            let predator_piece_mask = self.curr_player_non_frozen_pieces(piece_board);
            let opp_piece_mask = self.opponent_piece_mask(piece_board);
            let opp_threatened_pieces = self.threatened_pieces(
                predator_piece_mask,
                opp_piece_mask,
                piece_board,
            );
            let ghost base = valid_actions@;
            let dirs: [Direction; 4] = [
                Direction::Up,
                Direction::Right,
                Direction::Down,
                Direction::Left,
            ];
            let mut k: usize = 0;
            while k < 4
                invariant
                    k <= 4,
                    *piece_board == self@.pb,
                    opp_threatened_pieces == spec_threatened(
                        self@.pb,
                        spec_non_frozen(self@),
                        spec_opp_mask(self@),
                    ),
                    dirs@ =~= seq![
                        Direction::Up,
                        Direction::Right,
                        Direction::Down,
                        Direction::Left,
                    ],
                    spec_all_moves_ok(valid_actions@),
                    valid_actions@ == base + spec_push_prefix(self@, k as int),
                decreases 4 - k,
            {
                let direction = &dirs[k];
                let unoccupied_directions = can_move_in_direction(direction, piece_board);
                let valid_push_moves = unoccupied_directions & opp_threatened_pieces;
                proof {
                    lemma_opp_image_off_edge(!piece_board.all_pieces, *direction);
                    lemma_mask_subset_off_edge(
                        spec_can_move_dir(self@.pb, *direction),
                        opp_threatened_pieces,
                        0xFFFF_FFFF_FFFF_FFFFu64,
                        crate::board::spec_edge_mask(*direction),
                    );
                }
                Self::extend_moves(valid_actions, valid_push_moves, direction);
                k = k + 1;
                proof {
                    assert(valid_actions@ =~= base + spec_push_prefix(self@, k as int));
                }
            }
            proof {
                assert(spec_push_prefix(self@, 4) =~= spec_push_moves(self@));
            }
        } else {
            proof {
                assert(valid_actions@ =~= valid_actions@ + spec_push_moves(self@));
            }
        }
    }

    /// The only legal actions while a push awaits completion: stronger
    /// unfrozen pieces of the side to move stepping into the vacated
    /// square.
    fn must_complete_push_actions(&self, piece_board: &PieceBoardState) -> (r: Vec<Action>)
        requires
            self@.wf(),
            self@.phase is Play,
            self@.phase->Play_0.pps is MustCompletePush,
            *piece_board == self@.pb,
        ensures
            r@ == spec_must_complete_actions(self@),
            spec_all_moves_ok(r@),
    {
        let play_phase = self.unwrap_play_phase();
        let (square, pushed_piece) = play_phase.push_pull_state().unwrap_must_complete_push();
        let curr_player_non_frozen_piece_mask = self.curr_player_non_frozen_pieces(piece_board);
        let square_bit = square.as_bit_board();
        let mut valid_actions: Vec<Action> = Vec::new();
        self.complete_dir(
            &mut valid_actions,
            curr_player_non_frozen_piece_mask,
            square_bit,
            square,
            pushed_piece,
            piece_board,
            &Direction::Up,
        );
        self.complete_dir(
            &mut valid_actions,
            curr_player_non_frozen_piece_mask,
            square_bit,
            square,
            pushed_piece,
            piece_board,
            &Direction::Right,
        );
        self.complete_dir(
            &mut valid_actions,
            curr_player_non_frozen_piece_mask,
            square_bit,
            square,
            pushed_piece,
            piece_board,
            &Direction::Down,
        );
        self.complete_dir(
            &mut valid_actions,
            curr_player_non_frozen_piece_mask,
            square_bit,
            square,
            pushed_piece,
            piece_board,
            &Direction::Left,
        );
        valid_actions
    }

    /// Appends the completing step from one side of the vacated square,
    /// if a stronger unfrozen piece stands there.
    fn complete_dir(
        &self,
        valid_actions: &mut Vec<Action>,
        non_frozen: u64,
        square_bit: u64,
        square: Square,
        pushed_piece: Piece,
        piece_board: &PieceBoardState,
        direction: &Direction,
    )
        requires
            self@.wf(),
            self@.phase is Play,
            self@.phase->Play_0.pps == PushPullState::MustCompletePush(square, pushed_piece),
            square_bit == 1u64 << square.0,
            square.wf(),
            non_frozen == spec_non_frozen(self@),
            *piece_board == self@.pb,
            spec_all_moves_ok(old(valid_actions)@),
        ensures
            final(valid_actions)@ == spec_push_opt(
                old(valid_actions)@,
                spec_must_complete_candidate(self@, square, pushed_piece, *direction),
            ),
            spec_all_moves_ok(final(valid_actions)@),
    {
        let pushing_piece_bit = crate::board::shift_pieces_in_opp_direction(square_bit, direction)
            & non_frozen;
        if pushing_piece_bit != 0 {
            proof {
                crate::bits::lemma_shl_single_bit(square.0 as u64);
                lemma_opp_shift_single(square_bit, *direction);
                crate::bits::lemma_word_trivia(non_frozen, 0u64, 0u64);
                lemma_single_bit_and(
                    crate::board::spec_shift_pieces_opp(square_bit, *direction),
                    non_frozen,
                );
                lemma_opp_image_off_edge(square_bit, *direction);
                vstd::std_specs::bits::axiom_u64_trailing_zeros(pushing_piece_bit);
                crate::bits::lemma_single_bit_form(pushing_piece_bit);
                lemma_bit_in_mask(
                    crate::board::spec_shift_pieces_opp(square_bit, *direction),
                    vstd::std_specs::bits::u64_trailing_zeros(pushing_piece_bit) as u64,
                    crate::board::spec_edge_mask(*direction),
                );
            }
            let pushing_piece = crate::board::piece_type_at_bit(pushing_piece_bit, piece_board);
            if pushing_piece.is_stronger_than(pushed_piece) {
                valid_actions.push(
                    Action::Move(Square::from_bit_board(pushing_piece_bit), *direction),
                );
            }
        }
    }
}

impl GameState {
    /// The placements whose quota is still open for the side to move.
    fn valid_placement(&self) -> (r: Vec<Action>)
        requires
            self@.phase is Place,
        ensures
            r@ == spec_valid_placement(self@),
    {
        let mut actions: Vec<Action> = Vec::new();
        let piece_board = self.piece_board.piece_board();
        let curr_player_pieces = self.curr_player_piece_mask(piece_board);
        if piece_board.elephants & curr_player_pieces == 0 {
            actions.push(Action::Place(Piece::Elephant));
        }
        if piece_board.camels & curr_player_pieces == 0 {
            actions.push(Action::Place(Piece::Camel));
        }
        if count_set_bits(piece_board.horses & curr_player_pieces) < 2 {
            actions.push(Action::Place(Piece::Horse));
        }
        if count_set_bits(piece_board.dogs & curr_player_pieces) < 2 {
            actions.push(Action::Place(Piece::Dog));
        }
        if count_set_bits(piece_board.cats & curr_player_pieces) < 2 {
            actions.push(Action::Place(Piece::Cat));
        }
        if count_set_bits(piece_board.rabbits & curr_player_pieces) < 8 {
            actions.push(Action::Place(Piece::Rabbit));
        }
        proof {
            assert(actions@ =~= spec_valid_placement(self@));
        }
        actions
    }

    /// True when the side to move may pass: not on the first step, not
    /// during a push, and (with repetition checks on) without restoring
    /// the move's starting position or committing a third repetition.
    pub fn can_pass(&self, check_repetitions: bool) -> (r: bool)
        requires
            self@.wf(),
        ensures
            r == spec_can_pass(self@, check_repetitions),
    {
        match self.as_play_phase() {
            None => false,
            Some(play_phase) => {
                if play_phase.step() >= 1 && !play_phase.push_pull_state().is_must_complete_push() {
                    if !check_repetitions {
                        true
                    } else {
                        let step = play_phase.step();
                        let not_initial = self.unwrap_play_phase().initial_hash_of_move.board_state_hash()
                            != self.hash.exclude_step(step).board_state_hash();
                        if !not_initial {
                            false
                        } else {
                            !hash_history_contains_hash_twice(
                                &play_phase.hash_history,
                                &self.hash.pass(step),
                            )
                        }
                    }
                } else {
                    false
                }
            },
        }
    }

    /// True when committing this step right now would reproduce the
    /// move's starting position or commit a third repetition.
    fn is_passing_like_action(&self, action: &Action) -> (r: bool)
        requires
            self@.wf(),
            self@.phase is Play,
            spec_move_shape_ok(*action),
        ensures
            r == spec_is_passing_like(self@, *action),
    {
        let play_phase = self.unwrap_play_phase();
        match action {
            Action::Move(sq, dir) => {
                proof {
                    crate::bits::lemma_shl_single_bit(sq.0 as u64);
                    lemma_shift_stays_on_board(1u64 << sq.0, *dir);
                }
                let (new_piece_board, _) = self.piece_board.take_action(action);
                let new_hash_no_player_switch = self.hash.move_piece(
                    self,
                    &new_piece_board,
                    0,
                    self.is_p1_turn_to_move(),
                );
                let new_hash_switch_players = self.hash.move_piece(
                    self,
                    &new_piece_board,
                    0,
                    !self.is_p1_turn_to_move(),
                );
                if new_hash_no_player_switch.board_state_hash()
                    == play_phase.initial_hash_of_move.board_state_hash() {
                    true
                } else {
                    hash_history_contains_hash_twice(
                        &play_phase.hash_history,
                        &new_hash_switch_players,
                    )
                }
            },
            _ => false,
        }
    }

    /// Drops every passing-like step from the list, on the final step of
    /// a move that trapped nothing.
    fn remove_passing_like_actions(&self, valid_actions: &mut Vec<Action>)
        requires
            self@.wf(),
            self@.phase is Play,
            spec_all_moves_ok(old(valid_actions)@),
        ensures
            final(valid_actions)@ == (if spec_filter_applies(self@) {
                spec_filter_passing(self@, old(valid_actions)@)
            } else {
                old(valid_actions)@
            }),
            spec_all_moves_ok(final(valid_actions)@),
    {
        let play_phase = self.unwrap_play_phase();
        if play_phase.step() == 3 && !play_phase.piece_trapped_this_turn() {
            let ghost base = valid_actions@;
            let mut kept: Vec<Action> = Vec::new();
            let mut i: usize = 0;
            proof {
                assert(base.subrange(0, 0) =~= Seq::<Action>::empty());
            }
            while i < valid_actions.len()
                invariant
                    self@.wf(),
                    self@.phase is Play,
                    i <= valid_actions@.len(),
                    valid_actions@ == base,
                    spec_all_moves_ok(base),
                    kept@ == spec_filter_passing(self@, base.subrange(0, i as int)),
                    spec_all_moves_ok(kept@),
                decreases valid_actions@.len() - i,
            {
                proof {
                    assert(base.subrange(0, i + 1).drop_last() =~= base.subrange(0, i as int));
                    assert(base.subrange(0, i + 1).last() == base[i as int]);
                }
                let a = valid_actions[i];
                if !self.is_passing_like_action(&a) {
                    kept.push(a);
                }
                i = i + 1;
            }
            proof {
                assert(base.subrange(0, base.len() as int) =~= base);
            }
            *valid_actions = kept;
        }
    }

    /// True when the list still offers a step that is not passing-like.
    fn has_non_passing_like_action(&self, valid_actions: Vec<Action>) -> (r: bool)
        requires
            self@.wf(),
            self@.phase is Play,
            spec_all_moves_ok(valid_actions@),
        ensures
            r == spec_has_non_passing_like(self@, valid_actions@),
    {
        if valid_actions.len() == 0 {
            return false;
        }
        let play_phase = self.unwrap_play_phase();
        if play_phase.step() < 3 || play_phase.piece_trapped_this_turn() {
            return true;
        }
        let mut i: usize = 0;
        while i < valid_actions.len()
            invariant
                self@.wf(),
                self@.phase is Play,
                i <= valid_actions@.len(),
                spec_all_moves_ok(valid_actions@),
                forall|k: int| 0 <= k < i ==> spec_is_passing_like(self@, valid_actions@[k]),
            decreases valid_actions@.len() - i,
        {
            if !self.is_passing_like_action(&valid_actions[i]) {
                return true;
            }
            i = i + 1;
        }
        false
    }

    /// The legal actions of the position, with the repetition filter on
    /// or off.
    fn valid_actions_(&self, check_repetitions: bool) -> (r: Vec<Action>)
        requires
            self@.wf(),
        ensures
            r@ == spec_valid_actions(self@, check_repetitions),
            spec_all_moves_ok(r@),
    {
        match &self.phase {
            Phase::PlayPhase(play_phase) => {
                let piece_board = self.piece_board.piece_board();
                let mut valid_actions = if play_phase.push_pull_state.is_must_complete_push() {
                    self.must_complete_push_actions(piece_board)
                } else {
                    let mut valid_actions: Vec<Action> = Vec::new();
                    self.extend_with_push_piece_actions(&mut valid_actions, piece_board);
                    self.extend_with_pull_piece_actions(&mut valid_actions, piece_board);
                    self.extend_with_valid_curr_player_piece_moves(&mut valid_actions, piece_board);
                    if self.can_pass(check_repetitions) {
                        valid_actions.push(Action::Pass);
                    }
                    valid_actions
                };
                if check_repetitions {
                    self.remove_passing_like_actions(&mut valid_actions);
                }
                valid_actions
            },
            Phase::PlacePhase => self.valid_placement(),
        }
    }

    /// The legal actions of the position, with repetition filtering.
    pub fn valid_actions(&self) -> (r: Vec<Action>)
        requires
            self@.wf(),
        ensures
            r@ == spec_valid_actions(self@, true),
            spec_all_moves_ok(r@),
    {
        self.valid_actions_(true)
    }

    /// The legal actions of the position without repetition filtering,
    /// as a transposition table wants them.
    pub fn valid_actions_no_rep(&self) -> (r: Vec<Action>)
        requires
            self@.wf(),
        ensures
            r@ == spec_valid_actions(self@, false),
            spec_all_moves_ok(r@),
    {
        self.valid_actions_(false)
    }

    /// Returns the winner against the side to move if that side has no
    /// playable continuation, and nothing otherwise.
    pub fn has_move(&self, piece_board: &PieceBoardState) -> (r: Option<Terminal>)
        requires
            self@.wf(),
            *piece_board == self@.pb,
        ensures
            r == spec_no_move_terminal(self@),
    {
        let has_move: bool = match &self.phase {
            Phase::PlayPhase(play_phase) => {
                if play_phase.push_pull_state.is_must_complete_push() {
                    let valid_actions = self.must_complete_push_actions(piece_board);
                    self.has_non_passing_like_action(valid_actions)
                } else if self.can_pass(true) {
                    true
                } else {
                    let mut ordinary: Vec<Action> = Vec::new();
                    self.extend_with_valid_curr_player_piece_moves(&mut ordinary, piece_board);
                    if self.has_non_passing_like_action(ordinary) {
                        true
                    } else {
                        let mut pulls: Vec<Action> = Vec::new();
                        self.extend_with_pull_piece_actions(&mut pulls, piece_board);
                        if self.has_non_passing_like_action(pulls) {
                            true
                        } else {
                            let mut pushes: Vec<Action> = Vec::new();
                            self.extend_with_push_piece_actions(&mut pushes, piece_board);
                            self.has_non_passing_like_action(pushes)
                        }
                    }
                }
            },
            Phase::PlacePhase => true,
        };
        if has_move {
            None
        } else if self.p1_turn_to_move {
            Some(Terminal::SilverWin)
        } else {
            Some(Terminal::GoldWin)
        }
    }

    /// The winner of the goal race, if a rabbit stands on its goal row.
    fn rabbit_at_goal(&self, piece_board: &PieceBoardState) -> (r: Option<Terminal>)
        requires
            *piece_board == self@.pb,
        ensures
            r == spec_rabbit_at_goal(self@),
    {
        let p1_objective_met = piece_board.p1_pieces & piece_board.rabbits
            & crate::bits::P1_OBJECTIVE_MASK != 0;
        let p2_objective_met = !piece_board.p1_pieces & piece_board.rabbits
            & crate::bits::P2_OBJECTIVE_MASK != 0;
        if p1_objective_met || p2_objective_met {
            let last_to_move_is_p1 = !self.p1_turn_to_move;
            let last_to_move_objective_met = if last_to_move_is_p1 {
                p1_objective_met
            } else {
                p2_objective_met
            };
            if !(last_to_move_is_p1 ^ last_to_move_objective_met) {
                Some(Terminal::GoldWin)
            } else {
                Some(Terminal::SilverWin)
            }
        } else {
            None
        }
    }

    /// The winner by rabbit loss, if a side has none left.
    fn lost_all_rabbits(&self, piece_board: &PieceBoardState) -> (r: Option<Terminal>)
        requires
            *piece_board == self@.pb,
        ensures
            r == spec_lost_all_rabbits(self@),
    {
        let p1_lost_rabbits = piece_board.p1_pieces & piece_board.rabbits == 0;
        let p2_lost_rabbits = !piece_board.p1_pieces & piece_board.rabbits == 0;
        if p1_lost_rabbits || p2_lost_rabbits {
            let last_to_move_is_p1 = !self.p1_turn_to_move;
            let last_to_move_objective_met = if last_to_move_is_p1 {
                p2_lost_rabbits
            } else {
                p1_lost_rabbits
            };
            if !(last_to_move_is_p1 ^ last_to_move_objective_met) {
                Some(Terminal::GoldWin)
            } else {
                Some(Terminal::SilverWin)
            }
        } else {
            None
        }
    }

    /// The terminal state of the position, if the game is over: goal
    /// first, then rabbit loss, then a side with no move, ties going to
    /// whoever just moved.
    pub fn is_terminal(&self) -> (r: Option<Terminal>)
        requires
            self@.wf(),
        ensures
            r == spec_is_terminal(self@),
    {
        match self.as_play_phase() {
            None => None,
            Some(play_phase) => {
                let piece_board = self.piece_board.piece_board();
                if play_phase.step() > 0 {
                    return self.has_move(piece_board);
                }
                match self.rabbit_at_goal(piece_board) {
                    Some(t) => Some(t),
                    None => match self.lost_all_rabbits(piece_board) {
                        Some(t) => Some(t),
                        None => self.has_move(piece_board),
                    },
                }
            },
        }
    }

    /// The position's hash with the push or pull obligation mixed in:
    /// what a transposition table should key on.
    pub fn transposition_hash(&self) -> (r: u64)
        requires
            self@.wf(),
        ensures
            r == spec_transposition_hash(self@),
    {
        match &self.phase {
            Phase::PlayPhase(play_phase) => self.hash.board_state_hash_with_push_pull_state(
                play_phase.push_pull_state,
            ),
            Phase::PlacePhase => self.hash.board_state_hash(),
        }
    }

    /// The square, piece and owner of the animal this step would trap,
    /// without committing the step.
    pub fn trapped_animal_for_action(&self, action: &Action) -> (r: Option<(Square, Piece, bool)>)
        requires
            action matches Action::Move(sq, _) ==> sq.wf(),
        ensures
            r == spec_trapped_animal_for_action(self@, *action),
    {
        let mut piece_board_state = *self.piece_board.piece_board();
        match action {
            Action::Move(square, direction) => {
                PieceBoard::move_piece(&mut piece_board_state, square, direction);
                let trapped_animal_bits = piece_board_state.trapped_piece_bits();
                if trapped_animal_bits != 0 {
                    proof {
                        vstd::std_specs::bits::axiom_u64_trailing_zeros(trapped_animal_bits);
                    }
                    let square = Square::from_bit_board(trapped_animal_bits);
                    proof {
                        crate::bits::lemma_shl_single_bit(square.0 as u64);
                        lemma_trapped_bit_occupied(piece_board_state, square.0 as u64);
                    }
                    let piece = match piece_board_state.piece_type_at_square(&square) {
                        Some(piece) => piece,
                        None => {
                            proof {
                                assert(false);
                            }
                            Piece::Rabbit
                        },
                    };
                    let is_p1_piece = piece_board_state.bits_for_piece(piece, true)
                        & square.as_bit_board() != 0;
                    Some((square, piece, is_p1_piece))
                } else {
                    None
                }
            },
            _ => None,
        }
    }
}

/// The lowest trapped bit names an occupied square.
proof fn lemma_trapped_bit_occupied(pb: PieceBoardState, i: u64)
    requires
        i < 64,
        crate::board::spec_trapped_bits(pb) != 0,
        i == vstd::std_specs::bits::u64_trailing_zeros(crate::board::spec_trapped_bits(pb)),
    ensures
        (1u64 << i) & pb.all_pieces != 0,
{
    let t = crate::board::spec_trapped_bits(pb);
    vstd::std_specs::bits::axiom_u64_trailing_zeros(t);
    let all = pb.all_pieces;
    let sup = crate::board::spec_supported_both(pb);
    assert((t >> i) & 1u64 == 1u64);
    assert(t == (all & !sup) & 0x0000_2400_0024_0000u64 && (t >> i) & 1u64 == 1u64 && i < 64 ==> (
    1u64 << i) & all != 0) by (bit_vector);
}

/// The push moves of the first `k` directions.
pub open spec fn spec_push_prefix(m: StateModel, k: int) -> Seq<Action> {
    if k <= 0 {
        Seq::<Action>::empty()
    } else if k == 1 {
        spec_moves_for(spec_push_mask(m, Direction::Up), Direction::Up)
    } else if k == 2 {
        spec_moves_for(spec_push_mask(m, Direction::Up), Direction::Up) + spec_moves_for(
            spec_push_mask(m, Direction::Right),
            Direction::Right,
        )
    } else if k == 3 {
        spec_moves_for(spec_push_mask(m, Direction::Up), Direction::Up) + spec_moves_for(
            spec_push_mask(m, Direction::Right),
            Direction::Right,
        ) + spec_moves_for(spec_push_mask(m, Direction::Down), Direction::Down)
    } else {
        spec_moves_for(spec_push_mask(m, Direction::Up), Direction::Up) + spec_moves_for(
            spec_push_mask(m, Direction::Right),
            Direction::Right,
        ) + spec_moves_for(spec_push_mask(m, Direction::Down), Direction::Down) + spec_moves_for(
            spec_push_mask(m, Direction::Left),
            Direction::Left,
        )
    }
}

/// A single bit shifted against a direction stays at most a single bit.
proof fn lemma_opp_shift_single(s: u64, direction: Direction)
    requires
        crate::bits::is_single_bit(s),
    ensures
        crate::board::spec_shift_pieces_opp(s, direction) == 0 || crate::bits::is_single_bit(
            crate::board::spec_shift_pieces_opp(s, direction),
        ),
{
    match direction {
        Direction::Up => lemma_dir_bits_up(s, 0, 0),
        Direction::Right => lemma_dir_bits_right(s, 0, 0),
        Direction::Down => lemma_dir_bits_down(s, 0, 0),
        Direction::Left => lemma_dir_bits_left(s, 0, 0),
    }
}

/// The ordinary moves of the first `k` directions.
pub open spec fn spec_ordinary_prefix(m: StateModel, k: int) -> Seq<Action> {
    if k <= 0 {
        Seq::<Action>::empty()
    } else if k == 1 {
        spec_moves_for(spec_ordinary_mask(m, Direction::Up), Direction::Up)
    } else if k == 2 {
        spec_moves_for(spec_ordinary_mask(m, Direction::Up), Direction::Up) + spec_moves_for(
            spec_ordinary_mask(m, Direction::Right),
            Direction::Right,
        )
    } else if k == 3 {
        spec_moves_for(spec_ordinary_mask(m, Direction::Up), Direction::Up) + spec_moves_for(
            spec_ordinary_mask(m, Direction::Right),
            Direction::Right,
        ) + spec_moves_for(spec_ordinary_mask(m, Direction::Down), Direction::Down)
    } else {
        spec_moves_for(spec_ordinary_mask(m, Direction::Up), Direction::Up) + spec_moves_for(
            spec_ordinary_mask(m, Direction::Right),
            Direction::Right,
        ) + spec_moves_for(spec_ordinary_mask(m, Direction::Down), Direction::Down)
            + spec_moves_for(spec_ordinary_mask(m, Direction::Left), Direction::Left)
    }
}

/// A subset of a board away from an edge stays away from it.
proof fn lemma_mask_subset_off_edge(image: u64, a: u64, b: u64, edge: u64)
    by (bit_vector)
    requires
        image & edge == 0,
    ensures
        ((image & a) & b) & edge == 0,
        (image & a) & edge == 0,
{
}

/// The squares with an empty neighbour in a direction.
fn can_move_in_direction(direction: &Direction, piece_board: &PieceBoardState) -> (r: u64)
    ensures
        r == spec_can_move_dir(*piece_board, *direction),
{
    let empty_squares = !piece_board.all_pieces;
    crate::board::shift_pieces_in_opp_direction(empty_squares, direction)
}


/// The single-direction bit facts the generators lean on, upward:
/// a non-edge single bit lands on the board, the against-shift image
/// avoids the direction's edge, the square a pull comes from is real,
/// and an against-shifted single bit stays at most single.
proof fn lemma_dir_bits_up(s: u64, x: u64, b: u64)
    by (bit_vector)
    ensures
        (s != 0 && s & ((s - 1) as u64) == 0 && s & 0x0000_0000_0000_00FFu64 == 0) ==> ((s >> 8u64) != 0 && (s >> 8u64)
            & (((s >> 8u64) - 1) as u64) == 0),
        ((b & !0xFF00_0000_0000_0000u64) << 8u64) & 0x0000_0000_0000_00FFu64 == 0,
        (s != 0 && s & ((s - 1) as u64) == 0 && ((x & !0x0000_0000_0000_00FFu64) >> 8u64) & s != 0) ==> (((s & !0xFF00_0000_0000_0000u64) << 8u64) != 0 && ((s & !0xFF00_0000_0000_0000u64) << 8u64)
            & ((((s & !0xFF00_0000_0000_0000u64) << 8u64) - 1) as u64) == 0),
        (s != 0 && s & ((s - 1) as u64) == 0) ==> (((s & !0xFF00_0000_0000_0000u64) << 8u64) == 0 || (((s & !0xFF00_0000_0000_0000u64) << 8u64) != 0 && ((s & !0xFF00_0000_0000_0000u64) << 8u64)
            & ((((s & !0xFF00_0000_0000_0000u64) << 8u64) - 1) as u64) == 0)),
{
}

/// The single-direction bit facts the generators lean on, rightward:
/// a non-edge single bit lands on the board, the against-shift image
/// avoids the direction's edge, the square a pull comes from is real,
/// and an against-shifted single bit stays at most single.
proof fn lemma_dir_bits_right(s: u64, x: u64, b: u64)
    by (bit_vector)
    ensures
        (s != 0 && s & ((s - 1) as u64) == 0 && s & 0x8080_8080_8080_8080u64 == 0) ==> ((s << 1u64) != 0 && (s << 1u64)
            & (((s << 1u64) - 1) as u64) == 0),
        ((b & !0x0101_0101_0101_0101u64) >> 1u64) & 0x8080_8080_8080_8080u64 == 0,
        (s != 0 && s & ((s - 1) as u64) == 0 && ((x & !0x8080_8080_8080_8080u64) << 1u64) & s != 0) ==> (((s & !0x0101_0101_0101_0101u64) >> 1u64) != 0 && ((s & !0x0101_0101_0101_0101u64) >> 1u64)
            & ((((s & !0x0101_0101_0101_0101u64) >> 1u64) - 1) as u64) == 0),
        (s != 0 && s & ((s - 1) as u64) == 0) ==> (((s & !0x0101_0101_0101_0101u64) >> 1u64) == 0 || (((s & !0x0101_0101_0101_0101u64) >> 1u64) != 0 && ((s & !0x0101_0101_0101_0101u64) >> 1u64)
            & ((((s & !0x0101_0101_0101_0101u64) >> 1u64) - 1) as u64) == 0)),
{
}

/// The single-direction bit facts the generators lean on, downward:
/// a non-edge single bit lands on the board, the against-shift image
/// avoids the direction's edge, the square a pull comes from is real,
/// and an against-shifted single bit stays at most single.
proof fn lemma_dir_bits_down(s: u64, x: u64, b: u64)
    by (bit_vector)
    ensures
        (s != 0 && s & ((s - 1) as u64) == 0 && s & 0xFF00_0000_0000_0000u64 == 0) ==> ((s << 8u64) != 0 && (s << 8u64)
            & (((s << 8u64) - 1) as u64) == 0),
        ((b & !0x0000_0000_0000_00FFu64) >> 8u64) & 0xFF00_0000_0000_0000u64 == 0,
        (s != 0 && s & ((s - 1) as u64) == 0 && ((x & !0xFF00_0000_0000_0000u64) << 8u64) & s != 0) ==> (((s & !0x0000_0000_0000_00FFu64) >> 8u64) != 0 && ((s & !0x0000_0000_0000_00FFu64) >> 8u64)
            & ((((s & !0x0000_0000_0000_00FFu64) >> 8u64) - 1) as u64) == 0),
        (s != 0 && s & ((s - 1) as u64) == 0) ==> (((s & !0x0000_0000_0000_00FFu64) >> 8u64) == 0 || (((s & !0x0000_0000_0000_00FFu64) >> 8u64) != 0 && ((s & !0x0000_0000_0000_00FFu64) >> 8u64)
            & ((((s & !0x0000_0000_0000_00FFu64) >> 8u64) - 1) as u64) == 0)),
{
}

/// The single-direction bit facts the generators lean on, leftward:
/// a non-edge single bit lands on the board, the against-shift image
/// avoids the direction's edge, the square a pull comes from is real,
/// and an against-shifted single bit stays at most single.
proof fn lemma_dir_bits_left(s: u64, x: u64, b: u64)
    by (bit_vector)
    ensures
        (s != 0 && s & ((s - 1) as u64) == 0 && s & 0x0101_0101_0101_0101u64 == 0) ==> ((s >> 1u64) != 0 && (s >> 1u64)
            & (((s >> 1u64) - 1) as u64) == 0),
        ((b & !0x8080_8080_8080_8080u64) << 1u64) & 0x0101_0101_0101_0101u64 == 0,
        (s != 0 && s & ((s - 1) as u64) == 0 && ((x & !0x0101_0101_0101_0101u64) >> 1u64) & s != 0) ==> (((s & !0x8080_8080_8080_8080u64) << 1u64) != 0 && ((s & !0x8080_8080_8080_8080u64) << 1u64)
            & ((((s & !0x8080_8080_8080_8080u64) << 1u64) - 1) as u64) == 0),
        (s != 0 && s & ((s - 1) as u64) == 0) ==> (((s & !0x8080_8080_8080_8080u64) << 1u64) == 0 || (((s & !0x8080_8080_8080_8080u64) << 1u64) != 0 && ((s & !0x8080_8080_8080_8080u64) << 1u64)
            & ((((s & !0x8080_8080_8080_8080u64) << 1u64) - 1) as u64) == 0)),
{
}

/// A piece on a non-edge square lands on the board when it steps.
pub(crate) proof fn lemma_shift_stays_on_board(src: u64, direction: Direction)
    requires
        crate::bits::is_single_bit(src),
        src & crate::board::spec_edge_mask(direction) == 0,
    ensures
        crate::board::spec_shift_raw(src, direction) != 0,
        crate::bits::is_single_bit(crate::board::spec_shift_raw(src, direction)),
{
    match direction {
        Direction::Up => lemma_dir_bits_up(src, 0, 0),
        Direction::Right => lemma_dir_bits_right(src, 0, 0),
        Direction::Down => lemma_dir_bits_down(src, 0, 0),
        Direction::Left => lemma_dir_bits_left(src, 0, 0),
    }
}

} // verus!
