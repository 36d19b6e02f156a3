use checke_rs::bitboard::{BitBoard, MonoBitBoard};
use checke_rs::board::{
    Board, BoardBuilder, BoardCreationError, BoardState, BoardStatus, Player, INITIAL_BLACK_PIECES,
    INITIAL_KINGS, INITIAL_RED_PIECES,
};
use checke_rs::position::{MoveError, Square};
use checke_rs::turn::Turn;

fn turn(text: &str) -> Turn {
    Turn::from_notation(text).unwrap()
}

#[test]
fn test_board_initialization() {
    let board = Board::default();

    assert_eq!(board.current_state().active_player, Player::Black);
    assert_eq!(board.status(), BoardStatus::OnGoing);
}

#[test]
fn test_push_turn_with_single_move() {
    let mut board = Board::default();

    let board_state = board.push_turn(&turn("11x15")).unwrap();

    assert_eq!(board_state.active_player, Player::Red);
    assert_eq!(board_state.red_pieces, BitBoard::new(INITIAL_RED_PIECES));
    assert_eq!(
        board_state.black_pieces,
        BitBoard::new(0b01010101_10101010_01010001_00001000_00000000_00000000_00000000_00000000)
    );
    assert_eq!(board_state.kings, BitBoard::new(INITIAL_KINGS));
}

#[test]
fn test_push_turn_with_many_moves() {
    let mut board = Board::default();

    let board_state = board.push_turn(&turn("11x16")).unwrap();
    assert_eq!(board_state.active_player, Player::Red);
    assert_eq!(board_state.red_pieces, BitBoard::new(INITIAL_RED_PIECES));
    assert_eq!(
        board_state.black_pieces,
        BitBoard::new(0b01010101_10101010_01010001_00000010_00000000_00000000_00000000_00000000)
    );
    assert_eq!(board_state.kings, BitBoard::new(INITIAL_KINGS));

    let board_state = board.push_turn(&turn("24x19")).unwrap();
    assert_eq!(board_state.active_player, Player::Black);
    assert_eq!(
        board_state.red_pieces,
        BitBoard::new(0b00000000_00000000_00000000_00000000_00000100_10101000_01010101_10101010)
    );
    assert_eq!(
        board_state.black_pieces,
        BitBoard::new(0b01010101_10101010_01010001_00000010_00000000_00000000_00000000_00000000)
    );
    assert_eq!(board_state.kings, BitBoard::new(INITIAL_KINGS));
}

#[test]
fn test_pop_turn() {
    let mut board = Board::default();

    let board_state = board.push_turn(&turn("11x16")).unwrap();
    assert_eq!(board_state.active_player, Player::Red);
    assert_eq!(board_state.red_pieces, BitBoard::new(INITIAL_RED_PIECES));
    assert_eq!(
        board_state.black_pieces,
        BitBoard::new(0b01010101_10101010_01010001_00000010_00000000_00000000_00000000_00000000)
    );
    assert_eq!(board_state.kings, BitBoard::new(INITIAL_KINGS));

    let board_state = board.pop_turn().unwrap();
    assert_eq!(board_state.active_player, Player::Red);
    assert_eq!(board_state.red_pieces, BitBoard::new(INITIAL_RED_PIECES));
    assert_eq!(
        board_state.black_pieces,
        BitBoard::new(0b01010101_10101010_01010001_00000010_00000000_00000000_00000000_00000000)
    );
    assert_eq!(board_state.kings, BitBoard::new(INITIAL_KINGS));

    assert_eq!(board.current_state(), &BoardState::default())
}

#[test]
fn test_pop_turn_returns_none_when_no_turns_left_to_pop() {
    let mut board = Board::default();

    let board_state = board.pop_turn();

    assert!(board_state.is_none())
}

#[test]
fn test_push_turn_with_destination_occupied_error() {
    let mut board = Board::default();

    let result = board.push_turn(&turn("1x6"));

    let error = result
        .expect_err("Expected error to occur when moving a piece to an already occupied square.");
    assert_eq!(error, MoveError::DestinationOccupied)
}

#[test]
fn test_push_turn_with_wrong_player_piece_error() {
    let mut board = Board::default();

    let result = board.push_turn(&turn("23x18"));

    let error = result.expect_err("Expected error to occur when selecting incorrect player piece.");
    assert_eq!(error, MoveError::WrongPlayerPiece)
}

#[test]
fn test_push_turn_with_no_player_piece_error() {
    let mut board = Board::default();

    let result = board.push_turn(&turn("18x15"));

    let error = result.expect_err(
        "Expected error to occur when selecting a square that does not contain a piece.",
    );
    assert_eq!(error, MoveError::NoPieceAtSource)
}

#[test]
fn test_simple_board_creation() {
    let board = BoardBuilder::default()
        .current_player(Player::Red)
        .piece(Player::Red, Square::Six)
        .piece(Player::Black, Square::Eighteen)
        .king(Player::Black, Square::Eight)
        .build()
        .unwrap();

    let current_state = board.current_state();
    assert_eq!(current_state.active_player, Player::Red);

    let expected_black_pieces =
        BitBoard::new(0b00000000_00000010_00000000_00000000_00010000_00000000_00000000_00000000);
    assert_eq!(current_state.black_pieces(), expected_black_pieces);

    let expected_red_pieces =
        BitBoard::new(0b00000000_00100000_00000000_00000000_00000000_00000000_00000000_00000000);
    assert_eq!(current_state.red_pieces(), expected_red_pieces);

    let expected_kings =
        BitBoard::new(0b00000000_00000010_00000000_00000000_00000000_00000000_00000000_00000000);
    assert_eq!(current_state.all_kings(), expected_kings);
}

#[test]
fn test_board_builder_returns_error_when_multiple_placements_on_same_square() {
    let build_result = BoardBuilder::default()
        .piece(Player::Red, Square::Six)
        .piece(Player::Black, Square::Six)
        .build();

    assert_eq!(
        build_result.unwrap_err(),
        BoardCreationError::DuplicateAssignments
    );
}

#[test]
fn test_board_builder_rejects_a_square_given_twice_to_one_player() {
    let build_result = BoardBuilder::default()
        .piece(Player::Red, Square::Six)
        .piece(Player::Red, Square::Seven)
        .king(Player::Red, Square::Six)
        .build();
    assert_eq!(build_result.unwrap_err(), BoardCreationError::DuplicateAssignments);
}

#[test]
fn test_board_builder_current_player_is_independent_of_placements() {
    let board = BoardBuilder::default().piece(Player::Red, Square::One).build().unwrap();
    assert_eq!(board.current_state().active_player, Player::Black);
    let board = BoardBuilder::default()
        .piece(Player::Red, Square::One)
        .current_player(Player::Red)
        .build()
        .unwrap();
    assert_eq!(board.current_state().active_player, Player::Red);
    assert_eq!(board.state_stack().len(), 1);
}

#[test]
fn test_empty_board_is_complete() {
    let board = BoardBuilder::default().build().unwrap();
    assert_eq!(board.status(), BoardStatus::Complete { winner: Player::Red });
    assert!(board.is_game_concluded());
    let board = Board::empty();
    assert_eq!(board.current_state(), &BoardState::empty());
    assert_eq!(board.status(), BoardStatus::Complete { winner: Player::Red });
}

#[test]
fn test_player_without_legal_move_has_lost() {
    let board = BoardBuilder::default()
        .current_player(Player::Red)
        .piece(Player::Red, Square::Four)
        .piece(Player::Black, Square::Eight)
        .build()
        .unwrap();
    assert_eq!(board.status(), BoardStatus::Complete { winner: Player::Black });
    let board = BoardBuilder::default()
        .piece(Player::Black, Square::Five)
        .piece(Player::Red, Square::Nine)
        .piece(Player::Red, Square::Fourteen)
        .build()
        .unwrap();
    assert_eq!(board.status(), BoardStatus::Complete { winner: Player::Red });
}

#[test]
fn test_push_turn_on_a_concluded_game() {
    let mut board = Board::empty();
    let error = board.push_turn(&turn("11x15")).unwrap_err();
    assert_eq!(error, MoveError::GameConcluded);
    assert_eq!(board.state_stack().len(), 1);
}

#[test]
fn test_push_turn_with_illegal_destination_error() {
    let mut board = Board::default();
    let error = board.push_turn(&turn("10x17")).unwrap_err();
    assert_eq!(error, MoveError::IllegalDestination);
    let error = board.push_turn(&turn("10x16")).unwrap_err();
    assert_eq!(error, MoveError::IllegalDestination);
}

#[test]
fn test_starting_state() {
    let state = BoardState::default();
    assert_eq!(state.active_player(), Player::Black);
    assert_eq!(state.next_player(), Player::Red);
    assert_eq!(state.red_pieces().value(), INITIAL_RED_PIECES);
    assert_eq!(state.black_pieces().value(), INITIAL_BLACK_PIECES);
    assert_eq!(state.all_kings().value(), INITIAL_KINGS);
    assert_eq!(state.all_pieces().value(), 0x55AA5500_00AA55AA);
    assert_eq!(state.current_player_pieces().value(), INITIAL_BLACK_PIECES);
    assert_eq!(state.pieces_by_player(Player::Red).value(), INITIAL_RED_PIECES);
    assert_eq!(state.red_pieces().used_cells().count(), 12);
    assert_eq!(state.black_pieces().used_cells().count(), 12);
}

#[test]
fn test_state_queries() {
    let board = BoardBuilder::default()
        .piece(Player::Red, Square::Six)
        .king(Player::Red, Square::Seven)
        .piece(Player::Black, Square::Eighteen)
        .king(Player::Black, Square::Eight)
        .build()
        .unwrap();
    let state = board.current_state();
    let six = MonoBitBoard::from(Square::Six);
    let seven = MonoBitBoard::from(Square::Seven);
    let eight = MonoBitBoard::from(Square::Eight);
    let eighteen = MonoBitBoard::from(Square::Eighteen);
    let one = MonoBitBoard::from(Square::One);
    assert!(state.is_piece(six) && state.is_piece(eight) && !state.is_piece(one));
    assert!(state.is_red_piece(six) && !state.is_red_piece(eight));
    assert!(state.is_black_piece(eighteen) && !state.is_black_piece(seven));
    assert!(state.is_current_player_piece(eighteen) && !state.is_current_player_piece(six));
    assert!(state.is_king(seven) && state.is_king(eight) && !state.is_king(six));
    assert_eq!(state.red_kings().value(), seven.value());
    assert_eq!(state.black_kings().value(), eight.value());
    assert_eq!(state.kings_by_player(Player::Red).value(), seven.value());
    assert_eq!(state.kings_by_player(Player::Black).value(), eight.value());
}

#[test]
fn test_push_turn_moves_the_piece_and_passes_the_turn() {
    let mut board = Board::default();
    let state = *board.push_turn(&turn("11x15")).unwrap();
    assert!(!state.is_piece(MonoBitBoard::from(Square::Eleven)));
    assert!(state.is_black_piece(MonoBitBoard::from(Square::Fifteen)));
    assert_eq!(state.active_player, Player::Red);
    assert_eq!(state.black_pieces().used_cells().count(), 12);
    assert_eq!(state.red_pieces().used_cells().count(), 12);
    assert_eq!(board.current_state(), &state);
    assert_eq!(board.state_stack().len(), 2);
}

#[test]
fn test_push_turn_with_a_capture() {
    let mut board = BoardBuilder::default()
        .piece(Player::Black, Square::Ten)
        .piece(Player::Red, Square::Fourteen)
        .piece(Player::Red, Square::ThirtyTwo)
        .build()
        .unwrap();
    let state = *board.push_turn(&turn("10x17")).unwrap();
    assert!(!state.is_piece(MonoBitBoard::from(Square::Fourteen)));
    assert!(!state.is_piece(MonoBitBoard::from(Square::Ten)));
    assert!(state.is_black_piece(MonoBitBoard::from(Square::Seventeen)));
    assert_eq!(state.red_pieces(), BitBoard::from(Square::ThirtyTwo));
    assert_eq!(state.black_pieces(), BitBoard::from(Square::Seventeen));
    assert_eq!(state.active_player, Player::Red);
}

#[test]
fn test_push_turn_with_chained_jumps() {
    let mut board = BoardBuilder::default()
        .piece(Player::Black, Square::Ten)
        .piece(Player::Red, Square::Fourteen)
        .piece(Player::Red, Square::TwentyTwo)
        .piece(Player::Red, Square::ThirtyTwo)
        .build()
        .unwrap();
    let state = *board.push_turn(&turn("10x17,17x26")).unwrap();
    assert_eq!(state.red_pieces(), BitBoard::from(Square::ThirtyTwo));
    assert_eq!(state.black_pieces(), BitBoard::from(Square::TwentySix));
    assert_eq!(state.active_player, Player::Red);
    assert_eq!(board.state_stack().len(), 2);
}

#[test]
fn test_push_turn_is_atomic() {
    let mut board = BoardBuilder::default()
        .piece(Player::Black, Square::Ten)
        .piece(Player::Red, Square::Fourteen)
        .piece(Player::Red, Square::ThirtyTwo)
        .build()
        .unwrap();
    let before = *board.current_state();
    let error = board.push_turn(&turn("10x17,17x26")).unwrap_err();
    assert_eq!(error, MoveError::IllegalDestination);
    assert_eq!(board.current_state(), &before);
    assert_eq!(board.state_stack().len(), 1);
    let error = board.push_turn(&turn("10x17,10x17")).unwrap_err();
    assert_eq!(error, MoveError::NoPieceAtSource);
    assert_eq!(board.current_state(), &before);
}

#[test]
fn test_pop_turn_undoes_push_turn() {
    let mut board = Board::default();
    let before = *board.current_state();
    let pushed = *board.push_turn(&turn("9x13")).unwrap();
    assert_eq!(board.pop_turn(), Some(pushed));
    assert_eq!(board.current_state(), &before);
    assert_eq!(board.pop_turn(), None);
    assert_eq!(board.current_state(), &before);
}

#[test]
fn test_man_is_crowned_on_the_farthest_row() {
    let mut board = BoardBuilder::default()
        .piece(Player::Black, Square::TwentyFive)
        .piece(Player::Red, Square::Eight)
        .build()
        .unwrap();
    let state = *board.push_turn(&turn("25-29")).unwrap();
    assert_eq!(state.all_kings(), BitBoard::from(Square::TwentyNine));
    let state = *board.push_turn(&turn("8-4")).unwrap();
    assert_eq!(
        state.all_kings().value(),
        MonoBitBoard::from(Square::TwentyNine).value() | MonoBitBoard::from(Square::Four).value()
    );
    assert_eq!(state.red_kings(), BitBoard::from(Square::Four));
}

#[test]
fn test_man_is_not_crowned_short_of_the_farthest_row() {
    let mut board = BoardBuilder::default()
        .piece(Player::Black, Square::TwentyOne)
        .piece(Player::Red, Square::Eight)
        .build()
        .unwrap();
    let state = *board.push_turn(&turn("21-25")).unwrap();
    assert!(state.all_kings().empty());
}

#[test]
fn test_king_keeps_its_crown_when_it_moves() {
    let mut board = BoardBuilder::default()
        .king(Player::Black, Square::TwentyNine)
        .piece(Player::Red, Square::Eight)
        .build()
        .unwrap();
    let state = *board.push_turn(&turn("29-25")).unwrap();
    assert_eq!(state.all_kings(), BitBoard::from(Square::TwentyFive));
    assert_eq!(state.black_pieces(), BitBoard::from(Square::TwentyFive));
}

#[test]
fn test_captured_king_loses_its_crown() {
    let mut board = BoardBuilder::default()
        .piece(Player::Black, Square::Ten)
        .king(Player::Red, Square::Fourteen)
        .piece(Player::Red, Square::ThirtyTwo)
        .build()
        .unwrap();
    let state = *board.push_turn(&turn("10x17")).unwrap();
    assert!(state.all_kings().empty());
    assert_eq!(state.red_pieces(), BitBoard::from(Square::ThirtyTwo));
}

#[test]
fn test_apply_move_does_not_pass_the_turn() {
    let state = BoardState::default();
    let m = checke_rs::position::Move::from_notation("11-15").unwrap();
    let next = state.apply_move(&m);
    assert_eq!(next.active_player, Player::Black);
    assert_eq!(next.black_pieces.value(), INITIAL_BLACK_PIECES ^ m.to_bitboard().value());
    assert_eq!(next.red_pieces.value(), INITIAL_RED_PIECES);
}
