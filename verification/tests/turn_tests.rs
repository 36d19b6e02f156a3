use checke_rs::position::{Move, NotationError, Square};
use checke_rs::turn::Turn;

#[test]
fn test_turn_created_correctly_from_strings() {
    let moves = vec!["11x15", "15x18"];
    let turn = Turn::new(moves).unwrap();

    let expected_moves = &vec![
        Move::from_squares(Square::Eleven, Square::Fifteen),
        Move::from_squares(Square::Fifteen, Square::Eighteen),
    ];
    assert_eq!(turn.moves(), expected_moves)
}

#[test]
fn test_turn_created_correctly_from_squares() {
    let moves = vec![
        (Square::Eleven, Square::Fifteen),
        (Square::Fifteen, Square::Eighteen),
    ];
    let turn = Turn::new(moves).unwrap();

    let expected_moves = &vec![
        Move::from_squares(Square::Eleven, Square::Fifteen),
        Move::from_squares(Square::Fifteen, Square::Eighteen),
    ];
    assert_eq!(turn.moves(), expected_moves)
}

#[test]
fn test_turn_created_correctly_from_notation() {
    let notation = "11x15,15x18";
    let turn = Turn::from_notation(notation).unwrap();

    let expected_moves = &vec![
        Move::from_squares(Square::Eleven, Square::Fifteen),
        Move::from_squares(Square::Fifteen, Square::Eighteen),
    ];
    assert_eq!(turn.moves(), expected_moves)
}

#[test]
fn test_turn_from_moves() {
    let moves = vec![Move::from_squares(Square::One, Square::Ten)];
    let turn = Turn::from_moves(moves.clone());
    assert_eq!(turn.moves(), &moves);
    let turn = Turn::new(moves.clone()).unwrap();
    assert_eq!(turn.moves(), &moves);
}

#[test]
fn test_turn_from_strings_fails_with_the_first_error() {
    let result = Turn::new(vec!["11x15", "15x33", "bad"]);
    assert_eq!(result.err().unwrap(), NotationError::OutOfRange);
    let result = Turn::new(vec!["11x15", "bad", "15x33"]);
    assert_eq!(result.err().unwrap(), NotationError::InvalidFormat);
}

#[test]
fn test_turn_from_notation_fails_with_the_first_error() {
    assert_eq!(Turn::from_notation("11x15,15x33,bad").err().unwrap(), NotationError::OutOfRange);
    assert_eq!(Turn::from_notation("bad,15x33").err().unwrap(), NotationError::InvalidFormat);
    assert_eq!(Turn::from_notation("11x15,300x1").err().unwrap(), NotationError::OutOfRange);
}

#[test]
fn test_turn_from_notation_wants_a_move_in_every_part() {
    for text in ["", ",", "11x15,", ",11x15", "11x15,,15x18", "11x15, 15x18", "11x15;15x18"] {
        assert_eq!(Turn::from_notation(text).err().unwrap(), NotationError::InvalidFormat, "{}", text);
    }
}

#[test]
fn test_turn_from_notation_of_a_single_move() {
    let turn = Turn::from_notation("1-5").unwrap();
    assert_eq!(turn.moves(), &vec![Move::from_squares(Square::One, Square::Five)]);
    let turn = Turn::try_from("1-5").unwrap();
    assert_eq!(turn.moves().len(), 1);
}

#[test]
fn test_turn_keeps_the_order_of_its_moves() {
    let turn = Turn::from_notation("10x17,17x26,26x19").unwrap();
    let texts: Vec<String> = turn.moves().iter().map(|m| m.to_notation().unwrap()).collect();
    assert_eq!(texts, vec!["10x17", "17x26", "26x19"]);
}
