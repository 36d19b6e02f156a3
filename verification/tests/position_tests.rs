use checke_rs::bitboard::{BitBoard, MonoBitBoard};
use checke_rs::board::{BoardBuilder, BoardState, Player};
use checke_rs::position::{Move, MoveError, MoveGenerator, MoveIter, MoveValidator, Square};

fn validate(board_state: &BoardState, text: &str) -> Result<(), MoveError> {
    let validator = MoveValidator::new(board_state);
    validator.validate(&Move::from_notation(text).unwrap())
}

fn notations(moves: Vec<Move>) -> Vec<String> {
    moves.iter().map(|m| m.to_notation().unwrap()).collect()
}

#[test]
fn test_capturing_move_creates_capture() {
    let m = Move::from_notation("1x10").unwrap();

    let capture = m.capture();

    let piece = capture.expect("Expected capture piece to exist.");
    assert_eq!(piece, MonoBitBoard::from(Square::Six));
}

#[test]
fn test_non_capturing_move_does_not_create_capture() {
    let m = Move::from_notation("1x6").unwrap();

    let capture = m.capture();

    assert!(capture.is_none())
}

#[test]
fn test_no_moves_are_generated_from_empty_board() {
    let board_state = BoardState::empty();
    let moves = MoveIter::new(&board_state, Player::Red);

    assert_eq!(moves.count(), 0)
}

#[test]
fn test_move_with_valid_source_and_destination_is_ok() {
    let board_state = BoardState::default();

    let result = validate(&board_state, "10x14");

    assert!(result.is_ok())
}

#[test]
fn test_move_with_valid_source_and_invalid_destination_is_error() {
    let board_state = BoardState::default();

    let result = validate(&board_state, "10x16");

    let err = result.expect_err("Expected error when destination was not legal.");
    assert_eq!(err, MoveError::IllegalDestination);
}

#[test]
fn test_selecting_wrong_piece_is_error() {
    let board_state = BoardState::default();

    let result = validate(&board_state, "23x18");

    let err = result.expect_err("Expected error when incorrect piece is selected.");
    assert_eq!(err, MoveError::WrongPlayerPiece);
}

#[test]
fn test_selecting_source_with_no_piece_is_error() {
    let board_state = BoardState::default();

    let result = validate(&board_state, "18x15");

    let err = result.expect_err("Expected error when no piece was selected.");
    assert_eq!(err, MoveError::NoPieceAtSource);
}

#[test]
fn test_starting_position_has_seven_moves_for_black() {
    let board_state = BoardState::default();
    assert_eq!(MoveIter::new(&board_state, Player::Black).count(), 7);
}

#[test]
fn test_starting_position_has_seven_moves_for_red_to_move() {
    let mut board_state = BoardState::default();
    board_state.active_player = Player::Red;
    assert_eq!(MoveIter::new(&board_state, Player::Red).count(), 7);
}

#[test]
fn test_player_who_is_not_to_move_has_no_moves() {
    let board_state = BoardState::default();
    assert_eq!(MoveIter::new(&board_state, Player::Red).count(), 0);
}

#[test]
fn test_opening_moves_come_piece_by_piece_in_ascending_order() {
    let board_state = BoardState::default();
    let moves = MoveIter::new(&board_state, Player::Black).collect();
    assert_eq!(
        notations(moves),
        vec!["12-16", "11-16", "11-15", "10-15", "10-14", "9-14", "9-13"]
    );
}

#[test]
fn test_move_iter_next_resumes_where_it_left_off() {
    let board_state = BoardState::default();
    let mut moves = MoveIter::new(&board_state, Player::Black);
    assert_eq!(moves.next().unwrap(), Move::from_notation("12-16").unwrap());
    assert_eq!(moves.next().unwrap(), Move::from_notation("11-16").unwrap());
    assert_eq!(moves.count(), 5);
}

#[test]
fn test_generator_is_blind_to_occupancy() {
    let board_state = BoardState::default();
    let generator = MoveGenerator::new(&board_state, Player::Black);
    let moves = generator.by_cell(MonoBitBoard::from(Square::One));
    assert_eq!(notations(moves), vec!["1x10", "1-6", "1-5"]);
    let generator = MoveGenerator::new(&board_state, Player::Red);
    let moves = generator.by_cell(MonoBitBoard::from(Square::One));
    assert!(moves.is_empty());
    let moves = generator.by_cell(MonoBitBoard::from(Square::Eighteen));
    assert_eq!(notations(moves), vec!["18-15", "18-14", "18x11", "18x9"]);
}

#[test]
fn test_generator_gives_a_king_all_four_directions() {
    let board = BoardBuilder::default().king(Player::Black, Square::Eighteen).build().unwrap();
    let generator = MoveGenerator::new(board.current_state(), Player::Black);
    let moves = generator.by_cell(MonoBitBoard::from(Square::Eighteen));
    assert_eq!(
        notations(moves),
        vec!["18x27", "18x25", "18-23", "18-22", "18-15", "18-14", "18x11", "18x9"]
    );
}

#[test]
fn test_generator_keeps_to_the_board_at_the_edges() {
    let board_state = BoardState::empty();
    let generator = MoveGenerator::new(&board_state, Player::Black);
    let moves = generator.by_cell(MonoBitBoard::from(Square::Twelve));
    assert_eq!(notations(moves), vec!["12x19", "12-16"]);
    let moves = generator.by_cell(MonoBitBoard::from(Square::TwentyNine));
    assert!(moves.is_empty());
    let moves = generator.by_cell(MonoBitBoard::from(Square::TwentyEight));
    assert_eq!(notations(moves), vec!["28-32"]);
}

#[test]
fn test_generator_has_no_moves_off_the_squares() {
    let board_state = BoardState::default();
    let generator = MoveGenerator::new(&board_state, Player::Black);
    let moves = generator.by_cell(MonoBitBoard::new(1).unwrap());
    assert!(moves.is_empty());
}

#[test]
fn test_jump_needs_an_opponent_between() {
    let board = BoardBuilder::default().piece(Player::Black, Square::Ten).build().unwrap();
    assert_eq!(validate(board.current_state(), "10x17").unwrap_err(), MoveError::IllegalDestination);

    let board = BoardBuilder::default()
        .piece(Player::Black, Square::Ten)
        .piece(Player::Black, Square::Fourteen)
        .build()
        .unwrap();
    assert_eq!(validate(board.current_state(), "10x17").unwrap_err(), MoveError::IllegalDestination);

    let board = BoardBuilder::default()
        .piece(Player::Black, Square::Ten)
        .piece(Player::Red, Square::Fourteen)
        .build()
        .unwrap();
    assert!(validate(board.current_state(), "10x17").is_ok());
}

#[test]
fn test_jump_onto_a_piece_is_occupied() {
    let board = BoardBuilder::default()
        .piece(Player::Black, Square::Ten)
        .piece(Player::Red, Square::Fourteen)
        .piece(Player::Red, Square::Seventeen)
        .build()
        .unwrap();
    assert_eq!(validate(board.current_state(), "10x17").unwrap_err(), MoveError::DestinationOccupied);
}

#[test]
fn test_man_does_not_move_backwards_but_king_does() {
    let board = BoardBuilder::default().piece(Player::Black, Square::Eighteen).build().unwrap();
    assert_eq!(validate(board.current_state(), "18-14").unwrap_err(), MoveError::IllegalDestination);
    assert!(validate(board.current_state(), "18-22").is_ok());

    let board = BoardBuilder::default().king(Player::Black, Square::Eighteen).build().unwrap();
    assert!(validate(board.current_state(), "18-14").is_ok());
    assert!(validate(board.current_state(), "18-22").is_ok());
}

#[test]
fn test_standing_still_is_no_move() {
    let board_state = BoardState::default();
    assert_eq!(validate(&board_state, "10-10").unwrap_err(), MoveError::IllegalDestination);
}

#[test]
fn test_piece_off_the_squares_cannot_move() {
    let off = MonoBitBoard::new(1u64 << 45).unwrap();
    let board_state = BoardState {
        active_player: Player::Black,
        red_pieces: BitBoard::new(0),
        black_pieces: BitBoard::new(off.value()),
        kings: BitBoard::new(0),
    };
    let validator = MoveValidator::new(&board_state);
    let m = Move::new(off, MonoBitBoard::from(Square::Fourteen));
    assert_eq!(validator.validate(&m).unwrap_err(), MoveError::IllegalDestination);
    assert_eq!(MoveIter::new(&board_state, Player::Black).count(), 0);
}

#[test]
fn test_validation_leaves_the_state_alone() {
    let board_state = BoardState::default();
    let _ = validate(&board_state, "10x14");
    let _ = validate(&board_state, "23x18");
    assert_eq!(board_state, BoardState::default());
}
