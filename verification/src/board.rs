use crate::bitboard::BitBoard;
use crate::bitboard::BOTTOM_SQUARES;
use crate::bitboard::is_single_cell;
use crate::bitboard::lemma_cells_membership;
use crate::bitboard::lemma_single_cell_test;
use crate::bitboard::MonoBitBoard;
use crate::bitboard::TOP_SQUARES;
use crate::position::legal_moves;
use crate::position::lemma_jump_shifts;
use crate::position::lemma_legal_moves_sound_and_complete;
use crate::position::Move;
use crate::position::MoveError;
use crate::position::MoveIter;
use crate::position::MoveValidator;
use crate::position::MoveView;
use crate::position::validation;
use crate::square::lemma_square_cell;
use crate::square::lemma_square_round_trip;
use crate::square::Square;
use crate::turn::Turn;
use std::collections::VecDeque;
use vstd::prelude::*;

verus! {

/// The squares on which Red starts a game.
pub const INITIAL_RED_PIECES: u64 = 0x0000000000AA55AA;

/// The squares on which Black starts a game.
pub const INITIAL_BLACK_PIECES: u64 = 0x55AA550000000000;

/// The kings at the start of a game: none.
pub const INITIAL_KINGS: u64 = 0;

/// Represents the player disc color
#[derive(Copy, Clone, Debug, PartialEq, Eq, Structural)]
pub enum Player {
    Red,
    Black,
}

impl Player {
    /// The player that this player plays against.
    pub open spec fn opponent(self) -> Player {
        match self {
            Player::Red => Player::Black,
            Player::Black => Player::Red,
        }
    }

    /// The row on which the men of this player are crowned, the farthest in the direction
    /// in which they advance: the row of the cells 56 to 63 for Red, the row of the cells 0
    /// to 7 for Black.
    pub open spec fn crown_row(self) -> u64 {
        match self {
            Player::Red => TOP_SQUARES,
            Player::Black => BOTTOM_SQUARES,
        }
    }
}

/// Represents the state a classical checkers board may be in.
#[derive(Copy, Clone, Debug, PartialEq)]
pub struct BoardState {
    pub active_player: Player,
    pub red_pieces: BitBoard,
    pub black_pieces: BitBoard,
    pub kings: BitBoard,
}

impl Default for BoardState {
    /// The state at the start of a game: twelve men a side, Black to move.
    fn default() -> (state: Self)
        ensures
            state == BoardState::initial(),
    {
        Self {
            active_player: Player::Black,
            red_pieces: BitBoard::new(INITIAL_RED_PIECES),
            black_pieces: BitBoard::new(INITIAL_BLACK_PIECES),
            kings: BitBoard::new(INITIAL_KINGS),
        }
    }
}

impl BoardState {
    /// The state at the start of a game.
    pub open spec fn initial() -> BoardState {
        BoardState {
            active_player: Player::Black,
            red_pieces: BitBoard(INITIAL_RED_PIECES),
            black_pieces: BitBoard(INITIAL_BLACK_PIECES),
            kings: BitBoard(INITIAL_KINGS),
        }
    }

    /// The state of a board without pieces, Black to move.
    pub open spec fn vacant() -> BoardState {
        BoardState {
            active_player: Player::Black,
            red_pieces: BitBoard(0),
            black_pieces: BitBoard(0),
            kings: BitBoard(0),
        }
    }

    /// The cells that hold a piece of the given player.
    pub open spec fn pieces_of(self, player: Player) -> u64 {
        match player {
            Player::Red => self.red_pieces@,
            Player::Black => self.black_pieces@,
        }
    }

    /// The cells that hold a piece.
    pub open spec fn occupied(self) -> u64 {
        self.red_pieces@ | self.black_pieces@
    }

    /// Whether this state is one of a game: no cell holds a piece of both players, and every
    /// king is a piece.
    pub open spec fn well_formed(self) -> bool {
        &&& self.red_pieces@ & self.black_pieces@ == 0
        &&& self.kings@ & !self.occupied() == 0
    }

    /// The cells that hold a king once the move `m` is made: a king that moves keeps its
    /// crown, a piece that is captured loses it, and a piece that reaches the crown row of the
    /// player to move gains one.
    pub open spec fn kings_after(self, m: MoveView) -> u64 {
        let moved = if self.kings@ & m.source != 0 {
            (self.kings@ & !m.source) | m.destination
        } else {
            self.kings@
        };
        let kept = match m.jumped() {
            Some(between) => moved & !between,
            None => moved,
        };
        if self.active_player.crown_row() & m.destination != 0 {
            kept | m.destination
        } else {
            kept
        }
    }

    /// The state that the move `m` leaves: the piece of the player to move goes from the
    /// source to the destination, the piece that a jump passes over leaves the board, and the
    /// same player stays to move.
    pub open spec fn after_move(self, m: MoveView) -> BoardState {
        let kings = BitBoard(self.kings_after(m));
        let keep = match m.jumped() {
            Some(between) => !between,
            None => !0u64,
        };
        match self.active_player {
            Player::Red => BoardState {
                active_player: self.active_player,
                red_pieces: BitBoard(self.red_pieces@ ^ m.toggle_mask()),
                black_pieces: BitBoard(self.black_pieces@ & keep),
                kings,
            },
            Player::Black => BoardState {
                active_player: self.active_player,
                red_pieces: BitBoard(self.red_pieces@ & keep),
                black_pieces: BitBoard(self.black_pieces@ ^ m.toggle_mask()),
                kings,
            },
        }
    }

    /// This state with the other player to move.
    pub open spec fn passed(self) -> BoardState {
        BoardState {
            active_player: self.active_player.opponent(),
            red_pieces: self.red_pieces,
            black_pieces: self.black_pieces,
            kings: self.kings,
        }
    }

    /// Makes a move on this state, without a look at its legality: the state that the move
    /// leaves. A legal move on a state of a game leaves a state of a game.
    pub fn apply_move(&self, m: &Move) -> (next: BoardState)
        ensures
            next == self.after_move(m@),
            self.well_formed() && validation(*self, m@) is Ok ==> next.well_formed()
                && next.passed().well_formed(),
    {
        let source = m.source();
        let destination = m.destination();
        let from: u64 = source.value();
        let to: u64 = destination.value();
        proof {
            if self.well_formed() && validation(*self, m@) is Ok {
                lemma_move_keeps_well_formed(*self, m@);
            }
        }
        let keep: u64 = match m.capture() {
            Some(between) => !between.value(),
            None => !0u64,
        };
        let moved: u64 = if self.is_king(source) {
            (self.kings.value() & !from) | to
        } else {
            self.kings.value()
        };
        let crown: u64 = match self.active_player {
            Player::Red => TOP_SQUARES,
            Player::Black => BOTTOM_SQUARES,
        };
        let kings: u64 = if crown & to != 0 {
            (moved & keep) | to
        } else {
            moved & keep
        };
        proof {
            assert(moved & !0u64 == moved) by (bit_vector);
        }
        match self.active_player {
            Player::Red => BoardState {
                active_player: self.active_player,
                red_pieces: self.red_pieces ^ m.to_bitboard(),
                black_pieces: BitBoard::new(self.black_pieces.value() & keep),
                kings: BitBoard::new(kings),
            },
            Player::Black => BoardState {
                active_player: self.active_player,
                red_pieces: BitBoard::new(self.red_pieces.value() & keep),
                black_pieces: self.black_pieces ^ m.to_bitboard(),
                kings: BitBoard::new(kings),
            },
        }
    }

    /// Creates an empty [BoardState] instance.
    pub fn empty() -> (state: Self)
        ensures
            state == Self::vacant(),
    {
        Self {
            active_player: Player::Black,
            red_pieces: BitBoard::new(0),
            black_pieces: BitBoard::new(0),
            kings: BitBoard::new(0),
        }
    }

    /// Retrieves a bitboard representing where all red pieces are on the board.
    pub fn red_pieces(&self) -> (pieces: BitBoard)
        ensures
            pieces == self.red_pieces,
    {
        self.red_pieces
    }

    /// Retrieves a bitboard representing where all black pieces are on the board.
    pub fn black_pieces(&self) -> (pieces: BitBoard)
        ensures
            pieces == self.black_pieces,
    {
        self.black_pieces
    }

    /// Retrieves a bitboard representing where all pieces of a specified player are on the
    /// board.
    pub fn pieces_by_player(&self, player: Player) -> (pieces: BitBoard)
        ensures
            pieces@ == self.pieces_of(player),
    {
        match player {
            Player::Red => self.red_pieces(),
            Player::Black => self.black_pieces(),
        }
    }

    /// Retrieves the player that is able to take a turn on this board instance.
    pub fn active_player(&self) -> (player: Player)
        ensures
            player == self.active_player,
    {
        self.active_player
    }

    /// Determines the next player that will be active once a turn is successfully completed.
    pub fn next_player(&self) -> (player: Player)
        ensures
            player == self.active_player.opponent(),
    {
        match self.active_player {
            Player::Red => Player::Black,
            Player::Black => Player::Red,
        }
    }

    /// Retrieves a bitboard representing where all pieces of the current player are on the
    /// board.
    pub fn current_player_pieces(&self) -> (pieces: BitBoard)
        ensures
            pieces@ == self.pieces_of(self.active_player),
    {
        self.pieces_by_player(self.active_player())
    }

    /// Returns true if there is a piece occupying the given square and it belongs to the
    /// current player. Otherwise, returns false.
    pub fn is_current_player_piece(&self, bitboard: MonoBitBoard) -> (held: bool)
        ensures
            held == (self.pieces_of(self.active_player) & bitboard@ != 0),
    {
        self.current_player_pieces().contains(bitboard)
    }

    /// Returns true if there is a piece occupying the given square. Otherwise, returns false.
    pub fn is_piece(&self, bitboard: MonoBitBoard) -> (held: bool)
        ensures
            held == (self.occupied() & bitboard@ != 0),
    {
        self.all_pieces().contains(bitboard)
    }

    /// Retrieves a bitboard representing where all pieces are on the board.
    pub fn all_pieces(&self) -> (pieces: BitBoard)
        ensures
            pieces@ == self.occupied(),
    {
        self.red_pieces() | self.black_pieces()
    }

    /// Returns true if there is a red piece occupying the given square. Otherwise, returns
    /// false.
    pub fn is_red_piece(&self, bitboard: MonoBitBoard) -> (held: bool)
        ensures
            held == (self.red_pieces@ & bitboard@ != 0),
    {
        self.red_pieces().contains(bitboard)
    }

    /// Returns true if there is a black piece occupying the given square. Otherwise, returns
    /// false.
    pub fn is_black_piece(&self, bitboard: MonoBitBoard) -> (held: bool)
        ensures
            held == (self.black_pieces@ & bitboard@ != 0),
    {
        self.black_pieces().contains(bitboard)
    }

    /// Retrieves a bitboard representing where the red king pieces are on the board.
    pub fn red_kings(&self) -> (kings: BitBoard)
        ensures
            kings@ == self.red_pieces@ & self.kings@,
    {
        self.red_pieces() & self.all_kings()
    }

    /// Retrieves a bitboard representing where the black king pieces are on the board.
    pub fn black_kings(&self) -> (kings: BitBoard)
        ensures
            kings@ == self.black_pieces@ & self.kings@,
    {
        self.black_pieces() & self.all_kings()
    }

    /// Retrieves a bitboard representing where all kings of a specified player are on the
    /// board.
    pub fn kings_by_player(&self, player: Player) -> (kings: BitBoard)
        ensures
            kings@ == self.pieces_of(player) & self.kings@,
    {
        match player {
            Player::Red => self.red_kings(),
            Player::Black => self.black_kings(),
        }
    }

    /// Retrieves a bitboard representing all king pieces are on the board.
    pub fn all_kings(&self) -> (kings: BitBoard)
        ensures
            kings == self.kings,
    {
        self.kings
    }

    /// Returns true if there is a king occupying the given square. Otherwise, returns false.
    pub fn is_king(&self, bitboard: MonoBitBoard) -> (held: bool)
        ensures
            held == (self.kings@ & bitboard@ != 0),
    {
        self.all_kings().contains(bitboard)
    }
}

/// A legal move leaves a state of a game: made on a state in which no cell holds two pieces
/// and every king is a piece, it leaves such a state again.
pub proof fn lemma_move_keeps_well_formed(state: BoardState, m: MoveView)
    requires
        state.well_formed(),
        is_single_cell(m.source),
        is_single_cell(m.destination),
        validation(state, m) is Ok,
    ensures
        state.after_move(m).well_formed(),
        state.after_move(m).passed().well_formed(),
{
    let red = state.red_pieces@;
    let black = state.black_pieces@;
    let kings = state.kings@;
    let source = m.source;
    let destination = m.destination;
    let after = state.after_move(m);
    let red_after = after.red_pieces@;
    let black_after = after.black_pieces@;
    let kings_after = after.kings@;
    lemma_single_cell_test(source);
    lemma_single_cell_test(destination);
    lemma_jump_shifts(source, destination);
    let between = match m.jumped() {
        Some(between) => between,
        None => 0u64,
    };
    if m.jumped() is Some {
        lemma_single_cell_test(between);
    }
    let moved = if kings & source != 0 {
        (kings & !source) | destination
    } else {
        kings
    };
    let kept = match m.jumped() {
        Some(between) => moved & !between,
        None => moved,
    };
    let own = state.pieces_of(state.active_player);
    let other = state.pieces_of(state.active_player.opponent());
    let own_after = after.pieces_of(state.active_player);
    let other_after = after.pieces_of(state.active_player.opponent());
    assert(red & black == black & red) by (bit_vector);
    assert(own_after & other_after == 0 && kings_after & !(own_after | other_after) == 0 && kings_after
        & !(other_after | own_after) == 0) by (bit_vector)
        requires
            own & other == 0,
            kings & !(own | other) == 0 || kings & !(other | own) == 0,
            source != 0 && source & ((source - 1) as u64) == 0,
            destination != 0 && destination & ((destination - 1) as u64) == 0,
            between == 0 || between & ((between - 1) as u64) == 0,
            own & source != 0,
            (own | other) & destination == 0 || (other | own) & destination == 0,
            between == 0 || (other & between != 0 && own & between == 0),
            moved == (kings & !source) | destination || moved == kings && kings & source == 0,
            kept == moved & !between || between == 0 && kept == moved,
            kings_after == kept | destination || kings_after == kept,
            own_after == own ^ (source | destination),
            other_after == other & !between || between == 0 && other_after == other & !0u64,
    ;
    assert(red_after & black_after == black_after & red_after) by (bit_vector);
}

/// Represents the current status of a board instance.
#[derive(Copy, Clone, Debug, PartialEq, Eq, Structural)]
pub enum BoardStatus {
    /// The player to move still has valid moves that can be played and is therefor the game is
    /// still ongoing.
    OnGoing,
    /// The player to move no longer have any valid moves and therefore the game has been
    /// completed.
    Complete { winner: Player },
}

/// The status of a game in the given state: it goes on while the player to move has a legal
/// move, and is won by the other player once they have none.
pub open spec fn status_of(state: BoardState) -> BoardStatus {
    if legal_moves(state, state.active_player).len() > 0 {
        BoardStatus::OnGoing
    } else {
        BoardStatus::Complete { winner: state.active_player.opponent() }
    }
}

/// The state that the given moves leave when they are made one after the other, each on the
/// state that the one before it left, and the error of the first of them that is not legal
/// on its state.
pub open spec fn after_moves(state: BoardState, moves: Seq<MoveView>) -> Result<
    BoardState,
    MoveError,
>
    decreases moves.len(),
{
    if moves.len() == 0 {
        Ok(state)
    } else {
        match validation(state, moves[0]) {
            Err(error) => Err(error),
            Ok(_) => after_moves(state.after_move(moves[0]), moves.drop_first()),
        }
    }
}

/// The state that a turn leaves: its moves made in order by the player to move, and then the
/// other player to move.
pub open spec fn after_turn(state: BoardState, moves: Seq<MoveView>) -> Result<
    BoardState,
    MoveError,
> {
    if status_of(state) is Complete {
        Err(MoveError::GameConcluded)
    } else {
        match after_moves(state, moves) {
            Ok(left) => Ok(left.passed()),
            Err(error) => Err(error),
        }
    }
}

/// The history of a game after a turn is pushed: one state longer where the turn is legal,
/// and unchanged where it is not.
pub open spec fn pushed(history: Seq<BoardState>, moves: Seq<MoveView>) -> Seq<BoardState> {
    match after_turn(history.last(), moves) {
        Ok(next) => history.push(next),
        Err(_) => history,
    }
}

/// The history of a game after a turn is taken back: one state shorter, but never without
/// its first state.
pub open spec fn popped(history: Seq<BoardState>) -> Seq<BoardState> {
    if history.len() > 1 {
        history.drop_last()
    } else {
        history
    }
}

/// A turn is made whole or not at all: where one of its moves is not legal on the state that
/// the moves before it leave, the turn fails with the error of that move, and pushing it
/// leaves the history as it was.
pub proof fn lemma_turn_is_atomic(history: Seq<BoardState>, moves: Seq<MoveView>, k: int)
    requires
        history.len() >= 1,
        0 <= k < moves.len(),
        after_moves(history.last(), moves.take(k)) is Ok,
        validation(after_moves(history.last(), moves.take(k))->Ok_0, moves[k]) is Err,
    ensures
        after_turn(history.last(), moves) is Err,
        pushed(history, moves) == history,
        !(status_of(history.last()) is Complete) ==> after_turn(history.last(), moves)->Err_0
            == validation(after_moves(history.last(), moves.take(k))->Ok_0, moves[k])->Err_0,
{
    lemma_moves_fail_at(history.last(), moves, k);
}

/// Where the move with index `k` is not legal on the state that the moves before it leave,
/// the moves fail as a whole with its error.
pub proof fn lemma_moves_fail_at(state: BoardState, moves: Seq<MoveView>, k: int)
    requires
        0 <= k < moves.len(),
        after_moves(state, moves.take(k)) is Ok,
        validation(after_moves(state, moves.take(k))->Ok_0, moves[k]) is Err,
    ensures
        after_moves(state, moves) == Err::<BoardState, MoveError>(
            validation(after_moves(state, moves.take(k))->Ok_0, moves[k])->Err_0,
        ),
    decreases k,
{
    if k == 0 {
        assert(moves.take(0) =~= Seq::<MoveView>::empty());
    } else {
        let before = moves.take(k);
        assert(before[0] == moves[0]);
        assert(before.drop_first() =~= moves.drop_first().take(k - 1));
        assert(moves.drop_first()[k - 1] == moves[k]);
        lemma_moves_fail_at(state.after_move(moves[0]), moves.drop_first(), k - 1);
    }
}

/// Taking back a turn undoes it: after a turn is pushed, popping leaves the history as it
/// was before, and gives the state that the turn had left. A history of a single state has
/// nothing to take back.
pub proof fn lemma_pop_undoes_push(history: Seq<BoardState>, moves: Seq<MoveView>)
    requires
        history.len() >= 1,
    ensures
        after_turn(history.last(), moves) is Ok ==> popped(pushed(history, moves)) == history
            && pushed(history, moves).last() == after_turn(history.last(), moves)->Ok_0,
        history.len() == 1 ==> popped(history) == history,
{
    if let Ok(next) = after_turn(history.last(), moves) {
        assert(history.push(next).drop_last() =~= history);
    }
}

/// A game goes on exactly as long as the player to move has a legal move between two cells;
/// a player without pieces has none, so the game is over and the other player has won.
pub proof fn lemma_status(state: BoardState)
    ensures
        status_of(state) is OnGoing <==> exists|m: MoveView|
            is_single_cell(m.source) && is_single_cell(m.destination) && #[trigger] validation(
                state,
                m,
            ) is Ok,
        status_of(state) is Complete ==> status_of(state) == (BoardStatus::Complete {
            winner: state.active_player.opponent(),
        }),
        state.pieces_of(state.active_player) == 0 ==> status_of(state) is Complete,
{
    let listed = legal_moves(state, state.active_player);
    let pieces = crate::bitboard::cells(state.pieces_of(state.active_player));
    crate::position::lemma_legal_from(state, state.active_player, pieces);
    if listed.len() > 0 {
        let m = listed[0];
        assert(pieces.contains(m.source));
        lemma_cells_membership(state.pieces_of(state.active_player), m.source);
        lemma_legal_moves_sound_and_complete(state, m);
        crate::position::lemma_legal_destination(state, state.active_player, pieces, 0);
    }
    if exists|m: MoveView|
        is_single_cell(m.source) && is_single_cell(m.destination) && #[trigger] validation(
            state,
            m,
        ) is Ok {
        let m = choose|m: MoveView|
            is_single_cell(m.source) && is_single_cell(m.destination) && #[trigger] validation(
                state,
                m,
            ) is Ok;
        lemma_legal_moves_sound_and_complete(state, m);
    }
    if state.pieces_of(state.active_player) == 0 {
        lemma_cells_membership(0, 0);
    }
}

/// A board of checkers: the states of a game from its first to its current one.
#[derive(Debug)]
pub struct Board {
    state_stack: VecDeque<BoardState>,
}

impl View for Board {
    type V = Seq<BoardState>;

    closed spec fn view(&self) -> Seq<BoardState> {
        self.state_stack@
    }
}

impl Default for Board {
    /// Creates a fresh board with pieces in starting positions.
    fn default() -> (board: Self)
        ensures
            board@ == seq![BoardState::initial()],
            board.well_formed(),
    {
        let initial_state = BoardState::default();
        proof {
            assert(INITIAL_RED_PIECES & INITIAL_BLACK_PIECES == 0 && INITIAL_KINGS & !(
            INITIAL_RED_PIECES | INITIAL_BLACK_PIECES) == 0) by (bit_vector);
        }
        Board::new(initial_state)
    }
}

impl Board {
    /// Whether this board is one of a game: it holds a state, and each of its states is one
    /// of a game. Every board that this library makes is.
    pub open spec fn well_formed(&self) -> bool {
        &&& self@.len() >= 1
        &&& forall|i: int| 0 <= i < self@.len() ==> (#[trigger] self@[i]).well_formed()
    }

    pub(crate) fn new(initial_state: BoardState) -> (board: Self)
        requires
            initial_state.well_formed(),
        ensures
            board@ == seq![initial_state],
            board.well_formed(),
    {
        let mut state_stack: VecDeque<BoardState> = VecDeque::new();
        state_stack.push_back(initial_state);
        assert(state_stack@ =~= seq![initial_state]);
        Board { state_stack }
    }

    /// Creates an empty [Board] instance.
    pub fn empty() -> (board: Self)
        ensures
            board@ == seq![BoardState::vacant()],
            board.well_formed(),
    {
        let initial_state = BoardState::empty();
        proof {
            assert(0u64 & 0u64 == 0 && 0u64 & !(0u64 | 0u64) == 0) by (bit_vector);
        }
        Board::new(initial_state)
    }

    /// Returns the current board state
    pub fn current_state(&self) -> (state: &BoardState)
        requires
            self.well_formed(),
        ensures
            *state == self@.last(),
            state.well_formed(),
    {
        &self.state_stack[self.state_stack.len() - 1]
    }

    /// Calculates the current status of the game based on if the boards currently active
    /// player has any available moves to make.
    pub fn status(&self) -> (status: BoardStatus)
        requires
            self.well_formed(),
        ensures
            status == status_of(self@.last()),
    {
        let current_state = self.current_state();
        let mut player_moves = MoveIter::new(current_state, current_state.active_player);
        match player_moves.next() {
            Some(_) => BoardStatus::OnGoing,
            None => BoardStatus::Complete { winner: current_state.next_player() },
        }
    }

    /// Similar to [Board::status] but provides a simple yes or no answer to if the game
    /// is still in progress.
    pub fn is_game_concluded(&self) -> (concluded: bool)
        requires
            self.well_formed(),
        ensures
            concluded == (status_of(self@.last()) is Complete),
    {
        match self.status() {
            BoardStatus::Complete { .. } => true,
            BoardStatus::OnGoing => false,
        }
    }

    /// Attempts to apply a turn to the game board, changing the state of the board if a valid
    /// turn is provided: the moves of the turn are made in order on the current state, and
    /// the state that they leave, with the other player to move, becomes the current state.
    /// Where the game is over or a move is not legal, the board stays as it is.
    pub fn push_turn(&mut self, turn: &Turn) -> (result: Result<&BoardState, MoveError>)
        requires
            old(self).well_formed(),
        ensures
            final(self).well_formed(),
            match result {
                Ok(state) => after_turn(old(self)@.last(), turn@) == Ok::<BoardState, MoveError>(
                    *state,
                ),
                Err(error) => after_turn(old(self)@.last(), turn@) == Err::<
                    BoardState,
                    MoveError,
                >(error),
            },
            final(self)@ == pushed(old(self)@, turn@),
    {
        if self.is_game_concluded() {
            return Err(MoveError::GameConcluded);
        }
        let moves = turn.moves();
        let ghost first = self@.last();
        let mut board_state = *self.current_state();
        let mut i: usize = 0;
        assert(turn@.skip(0) =~= turn@);
        while i < moves.len()
            invariant
                i <= moves.len(),
                crate::position::views(moves@) == turn@,
                board_state.well_formed(),
                after_moves(first, turn@) == after_moves(board_state, turn@.skip(i as int)),
                *self == *old(self),
                old(self).well_formed(),
                first == old(self)@.last(),
                !(status_of(first) is Complete),
            decreases moves.len() - i,
        {
            let m = &moves[i];
            assert(turn@.skip(i as int)[0] == m@);
            assert(turn@.skip(i as int).drop_first() =~= turn@.skip(i + 1));
            let validator = MoveValidator::new(&board_state);
            match validator.validate(m) {
                Err(error) => {
                    return Err(error);
                },
                Ok(_) => {},
            }
            board_state = board_state.apply_move(m);
            i = i + 1;
        }
        board_state.active_player = board_state.next_player();
        self.state_stack.push_back(board_state);
        Ok(self.current_state())
    }

    /// Removes the last turn and returns the state of the board, or None if only the
    /// initial state remains on the stack.
    pub fn pop_turn(&mut self) -> (state: Option<BoardState>)
        requires
            old(self).well_formed(),
        ensures
            final(self).well_formed(),
            final(self)@ == popped(old(self)@),
            state == if old(self)@.len() > 1 {
                Some(old(self)@.last())
            } else {
                None
            },
    {
        match self.state_stack.len() {
            1 => None,
            _ => {
                let state = self.state_stack.pop_back();
                assert(self.state_stack@ =~= old(self)@.drop_last());
                state
            },
        }
    }

    /// Returns a reference to the boards state stack. Useful for viewing the history of
    /// the board.
    pub fn state_stack(&self) -> (stack: &VecDeque<BoardState>)
        ensures
            stack@ == self@,
    {
        &self.state_stack
    }
}

/// The error of building a board.
#[derive(Copy, Clone, Debug, PartialEq, Eq, Structural)]
pub enum BoardCreationError {
    /// Only a single piece can be placed per square.
    DuplicateAssignments,
}

/// A piece to place on a board: whose it is, on which square it stands, and whether it is a
/// king.
#[derive(Copy, Clone, Debug)]
pub struct Placement {
    pub player: Player,
    pub square: Square,
    pub is_king: bool,
}

/// What a [BoardBuilder] holds: the player to move on the board that it builds, and the
/// pieces to place on it, in the order in which they were given.
pub struct BuilderView {
    pub current_player: Player,
    pub placements: Seq<Placement>,
}

/// The cells of the squares on which the given placements put a piece of `player`.
pub open spec fn placed(placements: Seq<Placement>, player: Player) -> u64
    decreases placements.len(),
{
    if placements.len() == 0 {
        0
    } else if placements.last().player == player {
        placed(placements.drop_last(), player) | placements.last().square.bit()
    } else {
        placed(placements.drop_last(), player)
    }
}

/// The cells of the squares on which the given placements put a king.
pub open spec fn crowned(placements: Seq<Placement>) -> u64
    decreases placements.len(),
{
    if placements.len() == 0 {
        0
    } else if placements.last().is_king {
        crowned(placements.drop_last()) | placements.last().square.bit()
    } else {
        crowned(placements.drop_last())
    }
}

/// Whether two of the given placements put a piece on the same square.
pub open spec fn has_duplicates(placements: Seq<Placement>) -> bool {
    exists|i: int, j: int|
        0 <= i < j < placements.len() && (#[trigger] placements[i]).square
            == (#[trigger] placements[j]).square
}

impl BuilderView {
    /// The state that the placements make, with the chosen player to move.
    pub open spec fn state(self) -> BoardState {
        BoardState {
            active_player: self.current_player,
            red_pieces: BitBoard(placed(self.placements, Player::Red)),
            black_pieces: BitBoard(placed(self.placements, Player::Black)),
            kings: BitBoard(crowned(self.placements)),
        }
    }
}

/// Used to create complex but safe board configurations with a builder pattern.
#[derive(Debug)]
pub struct BoardBuilder {
    current_player: Player,
    placements: Vec<Placement>,
}

impl View for BoardBuilder {
    type V = BuilderView;

    closed spec fn view(&self) -> BuilderView {
        BuilderView { current_player: self.current_player, placements: self.placements@ }
    }
}

/// Which cells the given placements occupy: the square `square` holds a piece exactly where
/// one of the placements puts one there. The pieces of the two players stand on different
/// cells and every king is a piece, as long as no two placements share a square.
proof fn lemma_placed(placements: Seq<Placement>, square: Square)
    ensures
        (placed(placements, Player::Red) | placed(placements, Player::Black)) & square.bit() != 0
            <==> exists|i: int| 0 <= i < placements.len() && (#[trigger] placements[i]).square == square,
        crowned(placements) & !(placed(placements, Player::Red) | placed(placements, Player::Black))
            == 0,
        !has_duplicates(placements) ==> placed(placements, Player::Red) & placed(
            placements,
            Player::Black,
        ) == 0,
    decreases placements.len(),
{
    let red = placed(placements, Player::Red);
    let black = placed(placements, Player::Black);
    let kings = crowned(placements);
    if placements.len() == 0 {
        let cell = square.bit();
        assert((0u64 | 0u64) & cell == 0 && 0u64 & !(0u64 | 0u64) == 0 && 0u64 & 0u64 == 0)
            by (bit_vector);
    } else {
        let before = placements.drop_last();
        let last = placements.last();
        lemma_placed(before, square);
        lemma_placed(before, last.square);
        lemma_square_cell(square);
        lemma_square_cell(last.square);
        lemma_square_round_trip(square);
        crate::bitboard::lemma_single_cell_test(square.bit());
        crate::bitboard::lemma_single_cell_test(last.square.bit());
        let red_before = placed(before, Player::Red);
        let black_before = placed(before, Player::Black);
        let kings_before = crowned(before);
        let cell = square.bit();
        let piece = last.square.bit();
        assert({
            &&& (red == red_before | piece && black == black_before) || (red == red_before
                && black == black_before | piece)
            &&& kings == kings_before | piece || kings == kings_before
            &&& cell != 0 && cell & ((cell - 1) as u64) == 0
            &&& piece != 0 && piece & ((piece - 1) as u64) == 0
            &&& kings_before & !(red_before | black_before) == 0
        } ==> {
            &&& ((red | black) & cell != 0 <==> (red_before | black_before) & cell != 0 || cell
                == piece)
            &&& kings & !(red | black) == 0
            &&& (red_before & black_before == 0 && (red_before | black_before) & piece == 0
                ==> red & black == 0)
        }) by (bit_vector);
        if (red | black) & cell != 0 {
            if cell == piece {
                assert(placements[placements.len() - 1].square == square);
            } else {
                let i = choose|i: int| 0 <= i < before.len() && (#[trigger] before[i]).square == square;
                assert(placements[i].square == square);
            }
        }
        if exists|i: int| 0 <= i < placements.len() && (#[trigger] placements[i]).square == square {
            let i = choose|i: int| 0 <= i < placements.len() && (#[trigger] placements[i]).square == square;
            if i < before.len() {
                assert(before[i].square == square);
            }
        }
        if !has_duplicates(placements) {
            if has_duplicates(before) {
                let (i, j) = choose|i: int, j: int|
                    0 <= i < j < before.len() && (#[trigger] before[i]).square == (
                    #[trigger] before[j]).square;
                assert(placements[i].square == placements[j].square);
            }
            if (red_before | black_before) & piece != 0 {
                let i = choose|i: int| 0 <= i < before.len() && (#[trigger] before[i]).square == last.square;
                assert(placements[i].square == placements[placements.len() - 1].square);
            }
        }
    }
}

impl BoardBuilder {
    /// Sets the current player the board will be built with.
    pub fn current_player(&mut self, player: Player) -> (builder: &mut Self)
        ensures
            builder@ == (BuilderView { current_player: player, placements: old(self)@.placements }),
            *final(self) == *final(builder),
    {
        self.current_player = player;
        self
    }

    /// Adds a normal piece on the board.
    pub fn piece(&mut self, player: Player, square: Square) -> (builder: &mut Self)
        ensures
            builder@ == (BuilderView {
                current_player: old(self)@.current_player,
                placements: old(self)@.placements.push(Placement { player, square, is_king: false }),
            }),
            *final(self) == *final(builder),
    {
        let placement = Placement { player, square, is_king: false };
        self.placements.push(placement);
        self
    }

    /// Adds a king piece on the board.
    pub fn king(&mut self, player: Player, square: Square) -> (builder: &mut Self)
        ensures
            builder@ == (BuilderView {
                current_player: old(self)@.current_player,
                placements: old(self)@.placements.push(Placement { player, square, is_king: true }),
            }),
            *final(self) == *final(builder),
    {
        let placement = Placement { player, square, is_king: true };
        self.placements.push(placement);
        self
    }

    /// Attempts to construct a new [Board] instance given the previous details.
    /// An error will be returned if during the build process multiple pieces were placed
    /// on the same square.
    pub fn build(&self) -> (built: Result<Board, BoardCreationError>)
        ensures
            match built {
                Ok(board) => {
                    &&& !has_duplicates(self@.placements)
                    &&& board@ == seq![self@.state()]
                    &&& board.well_formed()
                },
                Err(error) => has_duplicates(self@.placements) && error
                    == BoardCreationError::DuplicateAssignments,
            },
    {
        let mut red_pieces = BitBoard::new(0);
        let mut black_pieces = BitBoard::new(0);
        let mut kings = BitBoard::new(0);
        let mut i: usize = 0;
        while i < self.placements.len()
            invariant
                i <= self.placements.len(),
                red_pieces@ == placed(self.placements@.take(i as int), Player::Red),
                black_pieces@ == placed(self.placements@.take(i as int), Player::Black),
                kings@ == crowned(self.placements@.take(i as int)),
                !has_duplicates(self.placements@.take(i as int)),
            decreases self.placements.len() - i,
        {
            let placement = &self.placements[i];
            let ghost before = self.placements@.take(i as int);
            let ghost after = self.placements@.take(i + 1);
            let piece = MonoBitBoard::from(placement.square);
            proof {
                MonoBitBoard::lemma_from_cell();
                lemma_placed(before, placement.square);
                assert(after.drop_last() =~= before);
                assert(after.last() == *placement);
            }
            if (red_pieces | black_pieces).contains(piece) {
                proof {
                    let j = choose|j: int|
                        0 <= j < before.len() && (#[trigger] before[j]).square == placement.square;
                    assert(self.placements@[j].square == self.placements@[i as int].square);
                }
                return Err(BoardCreationError::DuplicateAssignments);
            }
            match placement.player {
                Player::Red => {
                    red_pieces = red_pieces | piece
                },
                Player::Black => {
                    black_pieces = black_pieces | piece
                },
            }
            if placement.is_king {
                kings = kings | piece
            }
            proof {
                if has_duplicates(after) {
                    let (a, b) = choose|a: int, b: int|
                        0 <= a < b < after.len() && (#[trigger] after[a]).square == (
                        #[trigger] after[b]).square;
                    if b < i {
                        assert(before[a].square == before[b].square);
                    } else {
                        assert(before[a].square == placement.square);
                    }
                }
            }
            i = i + 1;
        }
        proof {
            assert(self.placements@.take(i as int) =~= self.placements@);
            lemma_placed(self.placements@, Square::One);
        }
        let current_player = self.current_player;
        let initial_state = BoardState {
            active_player: current_player,
            red_pieces,
            black_pieces,
            kings,
        };
        let board = Board::new(initial_state);
        Ok(board)
    }
}

impl Default for BoardBuilder {
    /// A builder of a board without pieces, Black to move.
    fn default() -> (builder: Self)
        ensures
            builder@ == (BuilderView {
                current_player: Player::Black,
                placements: Seq::<Placement>::empty(),
            }),
    {
        BoardBuilder { current_player: Player::Black, placements: Vec::new() }
    }
}

} // verus!
