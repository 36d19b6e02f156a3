use crate::bitboard::BitBoard;
use crate::bitboard::cell_bit;
use crate::bitboard::CellIter;
use crate::bitboard::cells;
use crate::bitboard::index_of;
use crate::bitboard::is_single_cell;
use crate::bitboard::lemma_cells_membership;
use crate::bitboard::lemma_index_of;
use crate::bitboard::MonoBitBoard;
use crate::board::BoardState;
use crate::board::Player;
use crate::notation::append_number;
use crate::notation::find_separator;
use crate::notation::is_segment;
use crate::notation::is_segment_at;
use crate::notation::lemma_number_text;
use crate::notation::lemma_separator_unique;
use crate::notation::number_text;
use crate::notation::separator_index;
use crate::square::lemma_square_cell;
use crate::square::lemma_square_round_trip;
use crate::square::parse_square;
pub use crate::square::Square;
use crate::tables::destinations;
use crate::tables::diagonal;
use crate::tables::lookup_moves;
use vstd::prelude::*;
use vstd::std_specs::cmp::PartialEqSpecImpl;
use vstd::std_specs::convert::TryFromSpecImpl;
use vstd::string::StringExecFns;
use vstd::string::StrSliceExecFns;

verus! {

/// Error denoting an issue parsing checkers notation.
#[derive(Copy, Clone, Debug, PartialEq, Eq, Structural)]
pub enum NotationError {
    /// Provided value did not conform to a valid checkers notation format.
    InvalidFormat,
    /// Provided value operates outside the realm of a classical checkers board.
    OutOfRange,
}

/// The error of converting a cell that is none of the 32 squares into a square.
#[derive(Copy, Clone, Debug, PartialEq, Eq, Structural)]
pub struct SquareConversionError;

/// What a [Move] is: the board of the cell that the piece leaves, and the board of the cell
/// that it goes to.
pub struct MoveView {
    pub source: u64,
    pub destination: u64,
}

impl MoveView {
    /// Whether this move changes the position of a piece: every legal move does.
    pub open spec fn displaces(self) -> bool {
        self.source != self.destination
    }

    /// The cells that change if the move is applied: applying the move toggles them in the
    /// pieces of the player who moves.
    pub open spec fn toggle_mask(self) -> u64 {
        self.source | self.destination
    }

    /// Whether the destination lies `distance` diagonal steps from the source.
    pub open spec fn spans(self, distance: int) -> bool {
        &&& is_single_cell(self.source)
        &&& is_single_cell(self.destination)
        &&& (diagonal(index_of(self.source), index_of(self.destination), 1, distance)
            || diagonal(index_of(self.source), index_of(self.destination), -1, distance))
    }

    /// Whether this move is a simple move, of one diagonal step.
    pub open spec fn is_simple(self) -> bool {
        self.spans(1)
    }

    /// Whether this move is a jump, of two diagonal steps.
    pub open spec fn is_jump(self) -> bool {
        self.spans(2)
    }

    /// The board of the cell half way between the source and the destination: the cell that
    /// a jump passes over.
    pub open spec fn midpoint(self) -> u64 {
        cell_bit((index_of(self.source) + index_of(self.destination)) / 2)
    }

    /// The cell that this move passes over, where it is a jump.
    pub open spec fn jumped(self) -> Option<u64> {
        if self.is_jump() {
            Some(self.midpoint())
        } else {
            None
        }
    }

    /// The canonical notation of this move: the number of the source square, a separator and
    /// the number of the destination square, where both cells are squares. The separator is
    /// `x` for a jump and `-` for any other move.
    pub open spec fn notation(self) -> Result<Seq<char>, SquareConversionError> {
        match (Square::of_cell(self.source), Square::of_cell(self.destination)) {
            (Ok(source), Ok(destination)) => Ok(
                number_text(source.number()) + seq![
                    if self.is_jump() {
                        'x'
                    } else {
                        '-'
                    },
                ] + number_text(destination.number()),
            ),
            _ => Err(SquareConversionError),
        }
    }
}

/// The move that the two numbers of a move of the notation name.
pub open spec fn parse_squares(source: Seq<char>, destination: Seq<char>) -> Result<
    MoveView,
    NotationError,
> {
    match parse_square(source) {
        Err(error) => Err(error),
        Ok(source) => match parse_square(destination) {
            Err(error) => Err(error),
            Ok(destination) => Ok(
                MoveView { source: source.bit(), destination: destination.bit() },
            ),
        },
    }
}

/// The move that `text` denotes: `text` is a number, one of the separators `-`, `x` and `X`,
/// and a number, each number that of a square. The separator has no bearing on the move.
pub open spec fn parse_move(text: Seq<char>) -> Result<MoveView, NotationError> {
    if is_segment(text) {
        let at = separator_index(text);
        parse_squares(text.subrange(0, at), text.subrange(at + 1, text.len() as int))
    } else {
        Err(NotationError::InvalidFormat)
    }
}

/// Represents a move that can occur on a board. A move is represented by a source and
/// destination.
#[derive(Copy, Clone, Debug)]
pub struct Move {
    source: MonoBitBoard,
    destination: MonoBitBoard,
}

impl View for Move {
    type V = MoveView;

    closed spec fn view(&self) -> MoveView {
        MoveView { source: self.source@, destination: self.destination@ }
    }
}

impl Move {
    /// The move with the given source and destination.
    pub closed spec fn of_view(view: MoveView) -> Move {
        Move {
            source: MonoBitBoard::from_cell(view.source),
            destination: MonoBitBoard::from_cell(view.destination),
        }
    }

    /// A move is what its source and destination are: [Move::of_view] has the view it was
    /// given, and two moves of one view are the same.
    pub proof fn lemma_of_view()
        ensures
            forall|view: MoveView| (#[trigger] Self::of_view(view))@ == view,
            forall|a: Move, b: Move| a@ == b@ ==> a == b,
    {
        MonoBitBoard::lemma_from_cell();
    }

    /// Creates a new [Move] instance from two given [MonoBitBoard]s.
    /// Move instances have no context of a board or any checkers rules. Moves are simply
    /// a source and destination. Move validation is expected to be done via other mechanisms.
    pub fn new(source: MonoBitBoard, destination: MonoBitBoard) -> (m: Self)
        ensures
            m@ == (MoveView { source: source@, destination: destination@ }),
    {
        Move { source, destination }
    }

    /// Creates a new [Move] instance from two given squares. Move instances have no context
    /// of a board or any checkers rules. Moves are simply a source and destination square.
    /// Move validation is expected to be done via other mechanisms.
    pub fn from_squares(source: Square, destination: Square) -> (m: Self)
        ensures
            m@ == (MoveView { source: source.bit(), destination: destination.bit() }),
    {
        proof {
            MonoBitBoard::lemma_from_cell();
        }
        let source = MonoBitBoard::from(source);
        let destination = MonoBitBoard::from(destination);
        Move { source, destination }
    }

    /// Create a new [Move] instance using the given checkers notation text.
    pub fn from_notation(text: &str) -> (parsed: Result<Self, NotationError>)
        ensures
            match parsed {
                Ok(m) => parse_move(text@) == Ok::<MoveView, NotationError>(m@),
                Err(error) => parse_move(text@) == Err::<MoveView, NotationError>(error),
            },
    {
        match find_separator(text) {
            Some(at) => {
                proof {
                    lemma_separator_unique(text@, at as int, separator_index(text@));
                }
                let len = text.unicode_len();
                let source_text = text.substring_char(0, at);
                let dest_text = text.substring_char(at + 1, len);
                Move::parse_captures(source_text, dest_text)
            },
            None => Err(NotationError::InvalidFormat),
        }
    }

    fn parse_captures(source_text: &str, dest_text: &str) -> (parsed: Result<
        Move,
        NotationError,
    >)
        ensures
            match parsed {
                Ok(m) => parse_squares(source_text@, dest_text@) == Ok::<MoveView, NotationError>(
                    m@,
                ),
                Err(error) => parse_squares(source_text@, dest_text@) == Err::<
                    MoveView,
                    NotationError,
                >(error),
            },
    {
        let source = match Square::try_from(source_text) {
            Ok(square) => square,
            Err(error) => return Err(error),
        };
        let dest = match Square::try_from(dest_text) {
            Ok(square) => square,
            Err(error) => return Err(error),
        };
        Ok(Move::from_squares(source, dest))
    }

    /// Retrieves a copy of this moves source.
    pub fn source(&self) -> (source: MonoBitBoard)
        ensures
            source@ == self@.source,
    {
        self.source
    }

    /// Retrieves a copy of this moves destination.
    pub fn destination(&self) -> (destination: MonoBitBoard)
        ensures
            destination@ == self@.destination,
    {
        self.destination
    }

    /// Returns a bitboard representing the squares that will change if the move is applied.
    /// This value will be useful when updating a bitboard with a move by applying an xor.
    pub fn to_bitboard(&self) -> (mask: BitBoard)
        ensures
            mask@ == self@.toggle_mask(),
    {
        self.source | self.destination
    }

    /// The canonical notation of this move, where its two cells are squares: the number of
    /// the source, `x` for a jump and `-` for any other move, and the number of the
    /// destination.
    pub fn to_notation(&self) -> (text: Result<String, SquareConversionError>)
        ensures
            match text {
                Ok(text) => self@.notation() == Ok::<Seq<char>, SquareConversionError>(text@),
                Err(_) => self@.notation() is Err,
            },
    {
        let source = match Square::try_from(self.source) {
            Ok(square) => square,
            Err(error) => return Err(error),
        };
        let destination = match Square::try_from(self.destination) {
            Ok(square) => square,
            Err(error) => return Err(error),
        };
        let mut text = String::new();
        append_number(&mut text, source.to_number());
        proof {
            reveal_strlit("x");
            reveal_strlit("-");
        }
        let separator = match self.capture() {
            Some(_) => "x",
            None => "-",
        };
        text.append(separator);
        append_number(&mut text, destination.to_number());
        proof {
            assert(separator@ =~= seq![
                if self@.is_jump() {
                    'x'
                } else {
                    '-'
                },
            ]);
        }
        Ok(text)
    }

    /// The cell that this move passes over, where the move is a jump: the cell of the piece
    /// that the jump captures.
    pub fn capture(&self) -> (captured: Option<MonoBitBoard>)
        ensures
            match captured {
                Some(cell) => self@.jumped() == Some(cell@),
                None => self@.jumped() is None,
            },
    {
        let source: u64 = self.source.value();
        let destination: u64 = self.destination.value();
        proof {
            lemma_jump_shifts(source, destination);
        }
        let between: u64 = if (source & 0x3F3F3F3F3F3F3F3F) >> 14 == destination {
            source >> 7
        } else if (source & 0xFCFCFCFCFCFCFCFC) >> 18 == destination {
            source >> 9
        } else if (source & 0xFCFCFCFCFCFCFCFC) << 14 == destination {
            source << 7
        } else if (source & 0x3F3F3F3F3F3F3F3F) << 18 == destination {
            source << 9
        } else {
            return None;
        };
        match MonoBitBoard::new(between) {
            Ok(cell) => Some(cell),
            Err(_) => None,
        }
    }
}

/// How the board of the cell between the two cells of a jump comes out of shifts.
pub proof fn lemma_jump_shifts(source: u64, destination: u64)
    requires
        is_single_cell(source),
        is_single_cell(destination),
    ensures
        ({
            let m = MoveView { source, destination };
            let lower_left = (source & 0x3F3F3F3F3F3F3F3F) >> 14 == destination;
            let lower_right = (source & 0xFCFCFCFCFCFCFCFC) >> 18 == destination;
            let higher_right = (source & 0xFCFCFCFCFCFCFCFC) << 14 == destination;
            let higher_left = (source & 0x3F3F3F3F3F3F3F3F) << 18 == destination;
            &&& m.is_jump() <==> lower_left || lower_right || higher_right || higher_left
            &&& m.is_jump() ==> is_single_cell(m.midpoint())
            &&& lower_left ==> m.midpoint() == source >> 7
            &&& !lower_left && lower_right ==> m.midpoint() == source >> 9
            &&& !lower_left && !lower_right && higher_right ==> m.midpoint() == source << 7
            &&& !lower_left && !lower_right && !higher_right && higher_left ==> m.midpoint()
                == source << 9
        }),
{
    let from = index_of(source);
    let to = index_of(destination);
    let a = from as u64;
    let b = to as u64;
    assert(a < 64 && b < 64 ==> {
        let source = 1u64 << a;
        let destination = 1u64 << b;
        &&& (source & 0x3F3F3F3F3F3F3F3F) >> 14 == destination <==> a % 8 < 6 && b + 14 == a
        &&& (source & 0xFCFCFCFCFCFCFCFC) >> 18 == destination <==> a % 8 >= 2 && b + 18 == a
        &&& (source & 0xFCFCFCFCFCFCFCFC) << 14 == destination <==> a % 8 >= 2 && a + 14 == b
        &&& (source & 0x3F3F3F3F3F3F3F3F) << 18 == destination <==> a % 8 < 6 && a + 18 == b
    }) by (bit_vector);
    let m = (from + to) / 2;
    let c = m as u64;
    assert(a < 64 && c < 64 ==> {
        let source = 1u64 << a;
        &&& c + 7 == a ==> source >> 7 == 1u64 << c
        &&& c + 9 == a ==> source >> 9 == 1u64 << c
        &&& a + 7 == c ==> source << 7 == 1u64 << c
        &&& a + 9 == c ==> source << 9 == 1u64 << c
    }) by (bit_vector);
    assert(diagonal(from, to, -1, 2) <==> (a % 8 < 6 && b + 14 == a) || (a % 8 >= 2 && b + 18
        == a));
    assert(diagonal(from, to, 1, 2) <==> (a % 8 >= 2 && a + 14 == b) || (a % 8 < 6 && a + 18
        == b));
    if (MoveView { source, destination }).is_jump() {
        lemma_index_of(m);
    }
}

/// Writing a move down and reading it again gives the move: whatever text denotes a move,
/// that move has a canonical notation, a number, a separator and a number, and the canonical
/// notation denotes the same move.
pub proof fn lemma_notation_round_trip(text: Seq<char>)
    ensures
        parse_move(text) matches Ok(m) ==> {
            &&& m.notation() matches Ok(canonical)
            &&& is_segment(canonical)
            &&& parse_move(canonical) == Ok::<MoveView, NotationError>(m)
        },
{
    if let Ok(m) = parse_move(text) {
        let at = separator_index(text);
        let source = parse_square(text.subrange(0, at))->Ok_0;
        let destination = parse_square(text.subrange(at + 1, text.len() as int))->Ok_0;
        lemma_canonical_notation(source, destination);
    }
}

/// The canonical notation of the move between two squares denotes that move.
pub proof fn lemma_canonical_notation(source: Square, destination: Square)
    ensures
        ({
            let m = MoveView { source: source.bit(), destination: destination.bit() };
            &&& m.notation() matches Ok(canonical)
            &&& is_segment(canonical)
            &&& parse_move(canonical) == Ok::<MoveView, NotationError>(m)
        }),
{
    let m = MoveView { source: source.bit(), destination: destination.bit() };
    lemma_square_round_trip(source);
    lemma_square_round_trip(destination);
    lemma_number_text(source.number());
    lemma_number_text(destination.number());
    let head = number_text(source.number());
    let tail = number_text(destination.number());
    let separator = if m.is_jump() {
        'x'
    } else {
        '-'
    };
    let canonical = head + seq![separator] + tail;
    assert(m.notation() == Ok::<Seq<char>, SquareConversionError>(canonical));
    let at = head.len() as int;
    assert(canonical.subrange(0, at) =~= head);
    assert(canonical.subrange(at + 1, canonical.len() as int) =~= tail);
    assert(canonical[at] == separator);
    assert(is_segment_at(canonical, at));
    lemma_separator_unique(canonical, at, separator_index(canonical));
    assert(head[0] != '+');
    assert(tail[0] != '+');
}

impl TryFrom<&str> for Move {
    type Error = NotationError;

    /// Converts a string slice representing checkers notation into a [Move] instance.
    fn try_from(text: &str) -> (parsed: Result<Self, NotationError>) {
        let parsed = Move::from_notation(text);
        proof {
            Move::lemma_of_view();
        }
        parsed
    }
}

impl TryFromSpecImpl<&str> for Move {
    open spec fn obeys_try_from_spec() -> bool {
        true
    }

    open spec fn try_from_spec(text: &str) -> Result<Self, NotationError> {
        match parse_move(text@) {
            Ok(m) => Ok(Move::of_view(m)),
            Err(error) => Err(error),
        }
    }
}

impl TryFrom<(MonoBitBoard, MonoBitBoard)> for Move {
    type Error = core::convert::Infallible;

    /// Converts a tuple of [MonoBitBoard] into a [Move] instance.
    fn try_from(value: (MonoBitBoard, MonoBitBoard)) -> (converted: Result<
        Self,
        core::convert::Infallible,
    >) {
        proof {
            Move::lemma_of_view();
        }
        Ok(Move::new(value.0, value.1))
    }
}

impl TryFromSpecImpl<(MonoBitBoard, MonoBitBoard)> for Move {
    open spec fn obeys_try_from_spec() -> bool {
        true
    }

    open spec fn try_from_spec(value: (MonoBitBoard, MonoBitBoard)) -> Result<
        Self,
        core::convert::Infallible,
    > {
        Ok(Move::of_view(MoveView { source: value.0@, destination: value.1@ }))
    }
}

impl TryFrom<(Square, Square)> for Move {
    type Error = core::convert::Infallible;

    /// Converts a tuple of [Square] into a [Move] instance.
    fn try_from(value: (Square, Square)) -> (converted: Result<Self, core::convert::Infallible>) {
        proof {
            Move::lemma_of_view();
        }
        Ok(Move::from_squares(value.0, value.1))
    }
}

impl TryFromSpecImpl<(Square, Square)> for Move {
    open spec fn obeys_try_from_spec() -> bool {
        true
    }

    open spec fn try_from_spec(value: (Square, Square)) -> Result<Self, core::convert::Infallible> {
        Ok(Move::of_view(MoveView { source: value.0.bit(), destination: value.1.bit() }))
    }
}

impl PartialEq for Move {
    fn eq(&self, other: &Self) -> (equal: bool) {
        self.source == other.source && self.destination == other.destination
    }
}

impl PartialEqSpecImpl for Move {
    open spec fn obeys_eq_spec() -> bool {
        true
    }

    open spec fn eq_spec(&self, other: &Self) -> bool {
        self@ == other@
    }
}

/// The pseudo-legal destinations, on the given state, of a piece of `player` on the single
/// cell `cell`: where the rules of movement alone let it go, as a king where `cell` holds a
/// king and as a man of `player` where it does not. A cell that is no square has none.
pub open spec fn pseudo_legal(state: BoardState, player: Player, cell: u64) -> u64 {
    if Square::of_cell(cell) is Ok {
        destinations(cell, state.kings@ & cell != 0, player)
    } else {
        0
    }
}

/// The moves from `cell` to each of `targets`, in their order.
pub open spec fn moves_to(cell: u64, targets: Seq<u64>) -> Seq<MoveView> {
    targets.map_values(|target: u64| MoveView { source: cell, destination: target })
}

/// The pseudo-legal moves of a piece of `player` on `cell`, in ascending order of their
/// destinations.
pub open spec fn pseudo_legal_moves(state: BoardState, player: Player, cell: u64) -> Seq<
    MoveView,
> {
    moves_to(cell, cells(pseudo_legal(state, player, cell)))
}

/// The views of the given moves.
pub open spec fn views(moves: Seq<Move>) -> Seq<MoveView> {
    moves.map_values(|m: Move| m@)
}

/// Capable of generating all possible moves. The key different between [MoveGenerator]
/// and [MoveIter] is that [MoveIter] only yields valid moves in the context of the provided
/// [BoardState]. [MoveGenerator] blindly yields all the legal moves a particular piece can
/// have.
pub struct MoveGenerator<'a> {
    board_state: &'a BoardState,
    player: Player,
}

impl<'a> MoveGenerator<'a> {
    /// The state for which this generator generates.
    pub closed spec fn state(&self) -> BoardState {
        *self.board_state
    }

    /// The player for whom this generator generates.
    pub closed spec fn player(&self) -> Player {
        self.player
    }

    /// Creates a new [MoveGenerator] instance given a [BoardState] reference and [Player].
    pub fn new(board_state: &'a BoardState, player: Player) -> (generator: Self)
        ensures
            generator.state() == *board_state,
            generator.player() == player,
    {
        MoveGenerator { board_state, player }
    }

    /// Provides the pseudo-legal moves of a piece on the given board cell.
    pub fn by_cell(&self, cell: MonoBitBoard) -> (moves: Vec<Move>)
        ensures
            views(moves@) == pseudo_legal_moves(self.state(), self.player(), cell@),
    {
        let mut targets = self.moves_by_cell(cell);
        let mut moves: Vec<Move> = Vec::new();
        let ghost all = targets.remaining();
        loop
            invariant
                views(moves@) + moves_to(cell@, targets.remaining()) == moves_to(cell@, all),
            ensures
                views(moves@) == moves_to(cell@, all),
            decreases targets.remaining().len(),
        {
            let ghost before = targets.remaining();
            let ghost taken = views(moves@);
            match targets.next() {
                Some(target) => {
                    moves.push(Move::new(cell, target));
                    assert(views(moves@) =~= taken.push(
                        MoveView { source: cell@, destination: target@ },
                    ));
                    assert(views(moves@) + moves_to(cell@, targets.remaining()) =~= taken
                        + moves_to(cell@, before));
                },
                None => {
                    assert(views(moves@) =~= views(moves@) + moves_to(cell@, before));
                    break;
                },
            }
        }
        moves
    }

    pub(crate) fn moves_by_cell(&self, cell: MonoBitBoard) -> (targets: CellIter)
        ensures
            targets.remaining() == cells(pseudo_legal(self.state(), self.player(), cell@)),
    {
        match self.get_move_bitboard(self.board_state, self.player, cell) {
            Some(bitboard) => bitboard.used_cells(),
            None => BitBoard::new(0).used_cells(),
        }
    }

    pub(crate) fn get_move_bitboard(
        &self,
        board_state: &BoardState,
        player: Player,
        cell: MonoBitBoard,
    ) -> (moves: Option<BitBoard>)
        ensures
            match moves {
                Some(bitboard) => Square::of_cell(cell@) is Ok && bitboard@ == pseudo_legal(
                    *board_state,
                    player,
                    cell@,
                ),
                None => Square::of_cell(cell@) is Err,
            },
    {
        let square = match Square::try_from(cell) {
            Ok(square) => square,
            Err(_) => return None,
        };
        proof {
            lemma_square_round_trip(square);
        }
        let is_king = board_state.is_king(cell);
        Some(BitBoard::new(lookup_moves(square, is_king, player)))
    }
}

/// Error that can occur while performing a move action.
#[derive(Copy, Clone, Debug, PartialEq, Eq, Structural)]
pub enum MoveError {
    /// A piece did not exist at the provided source square.
    NoPieceAtSource,
    /// The selected piece to move did not belong to the player color that was allowed to
    /// move.
    WrongPlayerPiece,
    /// The provided destination was illegal. The selected piece can not legally move to the
    /// provided destination.
    IllegalDestination,
    /// Moves can no longer be made on a board that been completed.
    GameConcluded,
    /// The destination was already occupied by a player piece.
    DestinationOccupied,
}

/// Whether the player to move has selected a piece of their own: the source of the move
/// holds a piece, and the piece is theirs.
pub open spec fn piece_selection(state: BoardState, m: MoveView) -> Result<(), MoveError> {
    if state.occupied() & m.source == 0 {
        Err(MoveError::NoPieceAtSource)
    } else if state.pieces_of(state.active_player) & m.source == 0 {
        Err(MoveError::WrongPlayerPiece)
    } else {
        Ok(())
    }
}

/// Whether the cell that a jump passes over holds a piece to capture: a piece of the
/// opponent of the player to move, and none of their own. Holds of a move that is no jump.
pub open spec fn captures_opponent(state: BoardState, m: MoveView) -> bool {
    match m.jumped() {
        Some(between) => {
            &&& state.pieces_of(state.active_player.opponent()) & between != 0
            &&& state.pieces_of(state.active_player) & between == 0
        },
        None => true,
    }
}

/// Whether the selected piece may go to the destination of the move: the destination is
/// among the pseudo-legal destinations of the piece, a jump passes over a piece of the
/// opponent, and the destination is free.
pub open spec fn destination_choice(state: BoardState, m: MoveView) -> Result<(), MoveError> {
    if pseudo_legal(state, state.active_player, m.source) & m.destination == 0 {
        Err(MoveError::IllegalDestination)
    } else if !captures_opponent(state, m) {
        Err(MoveError::IllegalDestination)
    } else if state.occupied() & m.destination != 0 {
        Err(MoveError::DestinationOccupied)
    } else {
        Ok(())
    }
}

/// Whether the move is legal on the given state, and the first rule that it breaks where it
/// is not.
pub open spec fn validation(state: BoardState, m: MoveView) -> Result<(), MoveError> {
    match piece_selection(state, m) {
        Err(error) => Err(error),
        Ok(_) => destination_choice(state, m),
    }
}

/// Capable of validating that a given move is valid provided additional [BoardState] context.
pub struct MoveValidator<'a> {
    board_state: &'a BoardState,
}

impl<'a> MoveValidator<'a> {
    /// The state on which this validator validates.
    pub closed spec fn state(&self) -> BoardState {
        *self.board_state
    }

    /// Creates a new [MoveValidator] instance from the given [BoardState].
    pub fn new(board_state: &'a BoardState) -> (validator: Self)
        ensures
            validator.state() == *board_state,
    {
        MoveValidator { board_state }
    }

    /// Validates a given move is valid per this validator's board state.
    pub fn validate(&self, m: &Move) -> (result: Result<(), MoveError>)
        ensures
            result == validation(self.state(), m@),
    {
        match self.valid_piece_selection(m) {
            Err(error) => Err(error),
            Ok(_) => self.valid_destination(m),
        }
    }

    fn valid_piece_selection(&self, m: &Move) -> (result: Result<(), MoveError>)
        ensures
            result == piece_selection(self.state(), m@),
    {
        if !self.board_state.is_piece(m.source) {
            return Err(MoveError::NoPieceAtSource);
        }
        if !self.board_state.is_current_player_piece(m.source) {
            return Err(MoveError::WrongPlayerPiece);
        }
        Ok(())
    }

    fn valid_destination(&self, m: &Move) -> (result: Result<(), MoveError>)
        ensures
            result == destination_choice(self.state(), m@),
    {
        let player = self.board_state.active_player();
        let generator = MoveGenerator::new(self.board_state, player);
        let destinations = match generator.get_move_bitboard(self.board_state, player, m.source) {
            Some(bitboard) => bitboard,
            None => BitBoard::new(0),
        };
        if !destinations.contains(m.destination) {
            return Err(MoveError::IllegalDestination);
        }
        match m.capture() {
            Some(between) => {
                let opponent = self.board_state.pieces_by_player(self.board_state.next_player());
                if !opponent.contains(between) || self.board_state.is_current_player_piece(
                    between,
                ) {
                    return Err(MoveError::IllegalDestination);
                }
            },
            None => {},
        }
        if self.board_state.is_piece(m.destination) {
            return Err(MoveError::DestinationOccupied);
        }
        Ok(())
    }
}

/// The legal moves, on the given state, among the moves from `cell` to each of `targets`, in
/// the order of the targets.
pub open spec fn legal_among(state: BoardState, cell: u64, targets: Seq<u64>) -> Seq<MoveView>
    decreases targets.len(),
{
    if targets.len() == 0 {
        Seq::empty()
    } else {
        let m = MoveView { source: cell, destination: targets[0] };
        let rest = legal_among(state, cell, targets.drop_first());
        if validation(state, m) is Ok {
            seq![m] + rest
        } else {
            rest
        }
    }
}

/// The legal moves, on the given state, of the pieces of `player` on each of the cells
/// `pieces`: cell by cell in their order, and for each cell the pseudo-legal moves that are
/// legal, in ascending order of their destinations.
pub open spec fn legal_from(state: BoardState, player: Player, pieces: Seq<u64>) -> Seq<MoveView>
    decreases pieces.len(),
{
    if pieces.len() == 0 {
        Seq::empty()
    } else {
        legal_among(state, pieces[0], cells(pseudo_legal(state, player, pieces[0]))) + legal_from(
            state,
            player,
            pieces.drop_first(),
        )
    }
}

/// Every legal move of `player` on the given state: piece by piece in ascending order of
/// their cells, and for each piece in ascending order of the destinations.
pub open spec fn legal_moves(state: BoardState, player: Player) -> Seq<MoveView> {
    legal_from(state, player, cells(state.pieces_of(player)))
}

/// What [legal_among] lists: the legal moves from `cell` to one of `targets`, and no other
/// move.
pub proof fn lemma_legal_among(state: BoardState, cell: u64, targets: Seq<u64>)
    ensures
        forall|k: int|
            0 <= k < legal_among(state, cell, targets).len() ==> {
                let m = #[trigger] legal_among(state, cell, targets)[k];
                m.source == cell && targets.contains(m.destination) && validation(state, m) is Ok
            },
        forall|target: u64|
            #![trigger targets.contains(target)]
            targets.contains(target) && validation(
                state,
                MoveView { source: cell, destination: target },
            ) is Ok ==> legal_among(state, cell, targets).contains(
                MoveView { source: cell, destination: target },
            ),
    decreases targets.len(),
{
    let listed = legal_among(state, cell, targets);
    if targets.len() > 0 {
        let first = MoveView { source: cell, destination: targets[0] };
        let later = targets.drop_first();
        let rest = legal_among(state, cell, later);
        lemma_legal_among(state, cell, later);
        let shift: int = if validation(state, first) is Ok {
            1
        } else {
            0
        };
        assert forall|k: int| 0 <= k < listed.len() implies {
            let m = #[trigger] listed[k];
            m.source == cell && targets.contains(m.destination) && validation(state, m) is Ok
        } by {
            if k < shift {
                assert(targets[0] == first.destination);
            } else {
                let m = rest[k - shift];
                assert(listed[k] == m);
                assert(later.contains(m.destination));
                let j = choose|j: int| 0 <= j < later.len() && later[j] == m.destination;
                assert(targets[j + 1] == m.destination);
            }
        }
        assert forall|target: u64|
            #![trigger targets.contains(target)]
            targets.contains(target) && validation(
                state,
                MoveView { source: cell, destination: target },
            ) is Ok implies listed.contains(MoveView { source: cell, destination: target }) by {
            let m = MoveView { source: cell, destination: target };
            let j = choose|j: int| 0 <= j < targets.len() && targets[j] == target;
            if j == 0 {
                assert(listed[0] == m);
            } else {
                assert(later[j - 1] == target);
                assert(later.contains(target));
                assert(rest.contains(m));
                let k = choose|k: int| 0 <= k < rest.len() && rest[k] == m;
                assert(listed[k + shift] == m);
            }
        }
    }
}

/// What [legal_from] lists: the legal moves of the pieces on `pieces` to their pseudo-legal
/// destinations, and no other move.
pub proof fn lemma_legal_from(state: BoardState, player: Player, pieces: Seq<u64>)
    ensures
        forall|k: int|
            0 <= k < legal_from(state, player, pieces).len() ==> {
                let m = #[trigger] legal_from(state, player, pieces)[k];
                pieces.contains(m.source) && validation(state, m) is Ok
            },
        forall|m: MoveView|
            #![trigger pieces.contains(m.source), validation(state, m)]
            pieces.contains(m.source) && cells(pseudo_legal(state, player, m.source)).contains(
                m.destination,
            ) && validation(state, m) is Ok ==> legal_from(state, player, pieces).contains(m),
    decreases pieces.len(),
{
    let listed = legal_from(state, player, pieces);
    if pieces.len() > 0 {
        let cell = pieces[0];
        let targets = cells(pseudo_legal(state, player, cell));
        let first = legal_among(state, cell, targets);
        let later = pieces.drop_first();
        let rest = legal_from(state, player, later);
        lemma_legal_among(state, cell, targets);
        lemma_legal_from(state, player, later);
        assert forall|k: int| 0 <= k < listed.len() implies {
            let m = #[trigger] listed[k];
            pieces.contains(m.source) && validation(state, m) is Ok
        } by {
            if k < first.len() {
                assert(listed[k] == first[k]);
                assert(pieces[0] == cell);
            } else {
                let m = rest[k - first.len()];
                assert(listed[k] == m);
                assert(later.contains(m.source));
                let j = choose|j: int| 0 <= j < later.len() && later[j] == m.source;
                assert(pieces[j + 1] == m.source);
            }
        }
        assert forall|m: MoveView|
            #![trigger pieces.contains(m.source), validation(state, m)]
            pieces.contains(m.source) && cells(pseudo_legal(state, player, m.source)).contains(
                m.destination,
            ) && validation(state, m) is Ok implies listed.contains(m) by {
            if m.source == cell {
                assert(targets.contains(m.destination));
                assert(m == MoveView { source: cell, destination: m.destination });
                assert(first.contains(m));
                let k = choose|k: int| 0 <= k < first.len() && first[k] == m;
                assert(listed[k] == m);
            } else {
                let j = choose|j: int| 0 <= j < pieces.len() && pieces[j] == m.source;
                assert(later[j - 1] == m.source);
                assert(later.contains(m.source));
                assert(rest.contains(m));
                let k = choose|k: int| 0 <= k < rest.len() && rest[k] == m;
                assert(listed[first.len() + k] == m);
            }
        }
    }
}

/// Where the moves of [legal_from] go: each to a single cell.
pub proof fn lemma_legal_destination(
    state: BoardState,
    player: Player,
    pieces: Seq<u64>,
    k: int,
)
    requires
        0 <= k < legal_from(state, player, pieces).len(),
    ensures
        is_single_cell(legal_from(state, player, pieces)[k].destination),
    decreases pieces.len(),
{
    let cell = pieces[0];
    let targets = cells(pseudo_legal(state, player, cell));
    let first = legal_among(state, cell, targets);
    if k < first.len() {
        lemma_legal_among(state, cell, targets);
        let m = first[k];
        assert(targets.contains(m.destination));
        lemma_cells_membership(pseudo_legal(state, player, cell), m.destination);
    } else {
        lemma_legal_destination(state, player, pieces.drop_first(), k - first.len());
    }
}

/// The moves that [MoveIter] yields for the player to move are the legal moves, all of them
/// and no others: each of them passes validation, and every move between two single cells
/// that passes validation is among them.
pub proof fn lemma_legal_moves_sound_and_complete(state: BoardState, m: MoveView)
    ensures
        legal_moves(state, state.active_player).contains(m) ==> validation(state, m) is Ok,
        is_single_cell(m.source) && is_single_cell(m.destination) && validation(state, m) is Ok
            ==> legal_moves(state, state.active_player).contains(m),
{
    let player = state.active_player;
    let pieces = cells(state.pieces_of(player));
    let listed = legal_moves(state, player);
    lemma_legal_from(state, player, pieces);
    if listed.contains(m) {
        let k = choose|k: int| 0 <= k < listed.len() && listed[k] == m;
        assert(validation(state, listed[k]) is Ok);
    }
    if is_single_cell(m.source) && is_single_cell(m.destination) && validation(state, m) is Ok {
        lemma_cells_membership(state.pieces_of(player), m.source);
        lemma_cells_membership(pseudo_legal(state, player, m.source), m.destination);
        assert(pieces.contains(m.source));
    }
}

/// What every legal move is: it moves a piece of the player to move from a square to a free
/// cell one or two diagonal steps away, so its source and its destination differ.
pub proof fn lemma_legal_move_shape(state: BoardState, m: MoveView)
    requires
        is_single_cell(m.source),
        is_single_cell(m.destination),
        validation(state, m) is Ok,
    ensures
        m.displaces(),
        m.is_simple() || m.is_jump(),
        Square::of_cell(m.source) is Ok,
        state.pieces_of(state.active_player) & m.source != 0,
        state.occupied() & m.destination == 0,
        captures_opponent(state, m),
        crate::tables::reaches(
            index_of(m.source),
            index_of(m.destination),
            state.kings@ & m.source != 0,
            state.active_player,
        ),
{
    let from = index_of(m.source);
    let to = index_of(m.destination);
    let king = state.kings@ & m.source != 0;
    let target = m.destination;
    assert(0u64 & target == 0) by (bit_vector);
    assert(m.source == cell_bit(from));
    assert(m.destination == cell_bit(to));
    crate::tables::lemma_destinations_reach(from, to, king, state.active_player);
    assert(crate::bitboard::has_cell(destinations(m.source, king, state.active_player), to));
}

/// Iterator capable of generating all possible moves for a given [BoardState]
/// and [Player] of that board.
pub struct MoveIter<'a> {
    board_state: &'a BoardState,
    player: Player,
    player_pieces: CellIter,
    source: Option<MonoBitBoard>,
    targets: CellIter,
}

impl<'a> MoveIter<'a> {
    /// The moves that this iterator has still to produce, in the order in which they come.
    pub closed spec fn remaining(&self) -> Seq<MoveView> {
        let pending = match self.source {
            Some(cell) => legal_among(*self.board_state, cell@, self.targets.remaining()),
            None => Seq::empty(),
        };
        pending + legal_from(*self.board_state, self.player, self.player_pieces.remaining())
    }

    /// Creates a new [MoveIter] instance from given board reference and player.
    pub fn new(board_state: &'a BoardState, player: Player) -> (iter: Self)
        ensures
            iter.remaining() == legal_moves(*board_state, player),
    {
        let player_pieces = board_state.pieces_by_player(player).used_cells();
        let targets = BitBoard::new(0).used_cells();
        let iter = MoveIter { board_state, player, player_pieces, source: None, targets };
        assert(iter.remaining() =~= legal_moves(*board_state, player));
        iter
    }

    /// Produces the next legal move: the first of those that are left.
    pub fn next(&mut self) -> (m: Option<Move>)
        ensures
            match m {
                Some(m) => {
                    &&& old(self).remaining().len() > 0
                    &&& m@ == old(self).remaining()[0]
                    &&& final(self).remaining() == old(self).remaining().drop_first()
                },
                None => old(self).remaining().len() == 0 && final(self).remaining().len() == 0,
            },
    {
        loop
            invariant
                self.remaining() == old(self).remaining(),
            decreases self.player_pieces.remaining().len(), self.targets.remaining().len(),
        {
            let ghost state = *self.board_state;
            let ghost player = self.player;
            let generator = MoveGenerator::new(self.board_state, self.player);
            let validator = MoveValidator::new(self.board_state);
            let ghost pieces = self.player_pieces.remaining();
            let ghost pending = self.targets.remaining();
            let ghost later = legal_from(state, player, pieces);
            match self.source {
                Some(source) => {
                    match self.targets.next() {
                        Some(target) => {
                            let m = Move::new(source, target);
                            match validator.validate(&m) {
                                Ok(_) => {
                                    proof {
                                        let rest = legal_among(
                                            state,
                                            source@,
                                            pending.drop_first(),
                                        );
                                        assert(old(self).remaining() =~= seq![m@] + rest + later);
                                        assert(self.remaining() =~= old(
                                            self,
                                        ).remaining().drop_first());
                                    }
                                    return Some(m);
                                },
                                Err(_) => {},
                            }
                        },
                        None => {
                            match self.player_pieces.next() {
                                Some(piece) => {
                                    self.source = Some(piece);
                                    self.targets = generator.moves_by_cell(piece);
                                    assert(self.remaining() =~= old(self).remaining());
                                },
                                None => {
                                    assert(self.remaining() =~= Seq::<MoveView>::empty());
                                    return None;
                                },
                            }
                        },
                    }
                },
                None => {
                    match self.player_pieces.next() {
                        Some(piece) => {
                            self.source = Some(piece);
                            self.targets = generator.moves_by_cell(piece);
                            assert(self.remaining() =~= old(self).remaining());
                        },
                        None => {
                            assert(self.remaining() =~= Seq::<MoveView>::empty());
                            return None;
                        },
                    }
                },
            }
        }
    }

    /// Produces every legal move that is left, in order.
    pub fn collect(self) -> (moves: Vec<Move>)
        ensures
            views(moves@) == self.remaining(),
    {
        let mut iter = self;
        let mut moves: Vec<Move> = Vec::new();
        loop
            invariant
                views(moves@) + iter.remaining() == self.remaining(),
            ensures
                views(moves@) == self.remaining(),
            decreases iter.remaining().len(),
        {
            let ghost before = iter.remaining();
            let ghost taken = views(moves@);
            match iter.next() {
                Some(m) => {
                    moves.push(m);
                    assert(views(moves@) =~= taken.push(m@));
                    assert(views(moves@) + iter.remaining() =~= taken + before);
                },
                None => {
                    assert(views(moves@) =~= views(moves@) + before);
                    break;
                },
            }
        }
        moves
    }

    /// Counts the legal moves that are left.
    pub fn count(self) -> (count: usize)
        ensures
            count == self.remaining().len(),
    {
        let moves = self.collect();
        assert(views(moves@).len() == moves@.len());
        moves.len()
    }
}

} // verus!
