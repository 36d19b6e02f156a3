use checke_rs::bitboard::{BitBoard, MonoBitBoard};
use checke_rs::position::{NotationError, Square, SquareConversionError};

#[test]
fn test_square_converts_from_valid_u8() {
    let square = Square::try_from(1).unwrap();

    assert_eq!(Square::One, square)
}

#[test]
fn test_square_errors_from_invalid_u8() {
    let result = Square::try_from(0);

    let err = result.expect_err("Expected NotationError when u8 is out of range.");
    assert_eq!(NotationError::OutOfRange, err)
}

#[test]
fn test_square_converts_from_valid_string_slice() {
    let square = Square::try_from("1").unwrap();

    assert_eq!(Square::One, square)
}

#[test]
fn test_to_number() {
    let square = Square::One;

    let number = square.to_number();

    assert_eq!(number, 1)
}

#[test]
fn test_square_iter() {
    let square_count = Square::iter().into_iter().count();

    assert_eq!(square_count, 32)
}

#[test]
fn test_square_one_produces_correct_bitboard() {
    let bb = MonoBitBoard::from(Square::One);

    let value = 0b01000000_00000000_00000000_00000000_00000000_00000000_00000000_00000000;
    let expected_bb = MonoBitBoard::new(value).unwrap();
    assert_eq!(bb, expected_bb)
}

#[test]
fn test_square_thirty_two_produces_correct_bitboard() {
    let bb = MonoBitBoard::from(Square::ThirtyTwo);

    let value = 0b00000000_00000000_00000000_00000000_00000000_00000000_00000000_00000010;
    let expected_bb = MonoBitBoard::new(value).unwrap();
    assert_eq!(bb, expected_bb)
}

#[test]
fn test_square_round_trips_through_its_cell() {
    for square in Square::iter() {
        let cell = MonoBitBoard::from(square);
        assert_eq!(Square::try_from(cell).unwrap(), square);
    }
}

#[test]
fn test_square_round_trips_through_its_number() {
    for (index, square) in Square::iter().into_iter().enumerate() {
        assert_eq!(square.to_number() as usize, index + 1);
        assert_eq!(square.as_number(), square.to_number());
        assert_eq!(Square::try_from(square.to_number()).unwrap(), square);
    }
}

#[test]
fn test_squares_lie_on_different_cells() {
    let mut seen = 0u64;
    for square in Square::iter() {
        let cell = MonoBitBoard::from(square).value();
        assert_eq!(seen & cell, 0);
        seen |= cell;
    }
    assert_eq!(seen, 0x55AA55AA55AA55AA);
}

#[test]
fn test_square_cells_follow_the_layout() {
    assert_eq!(MonoBitBoard::from(Square::Five).value(), 1u64 << 55);
    assert_eq!(MonoBitBoard::from(Square::Eight).value(), 1u64 << 49);
    assert_eq!(MonoBitBoard::from(Square::Nine).value(), 1u64 << 46);
    assert_eq!(MonoBitBoard::from(Square::TwentyNine).value(), 1u64 << 7);
    assert_eq!(Square::Twelve.as_bitboard().value(), 0x10000000000);
    assert_eq!(BitBoard::from(Square::Twelve).value(), 0x10000000000);
}

#[test]
fn test_cell_that_is_no_square_does_not_convert() {
    let cell = MonoBitBoard::new(1).unwrap();
    assert_eq!(Square::try_from(cell).unwrap_err(), SquareConversionError);
    let cell = MonoBitBoard::new(0x8000000000000000).unwrap();
    assert_eq!(Square::try_from(cell).unwrap_err(), SquareConversionError);
}

#[test]
fn test_square_from_u8_range() {
    assert_eq!(Square::try_from(32u8).unwrap(), Square::ThirtyTwo);
    assert_eq!(Square::try_from(33u8).unwrap_err(), NotationError::OutOfRange);
    assert_eq!(Square::try_from(255u8).unwrap_err(), NotationError::OutOfRange);
}

#[test]
fn test_square_from_text() {
    assert_eq!(Square::try_from("12").unwrap(), Square::Twelve);
    assert_eq!(Square::try_from("32").unwrap(), Square::ThirtyTwo);
    assert_eq!(Square::try_from("+5").unwrap(), Square::Five);
    assert_eq!(Square::try_from("007").unwrap(), Square::Seven);
    assert_eq!(Square::try_from("0").unwrap_err(), NotationError::OutOfRange);
    assert_eq!(Square::try_from("33").unwrap_err(), NotationError::OutOfRange);
    assert_eq!(Square::try_from("255").unwrap_err(), NotationError::OutOfRange);
    assert_eq!(Square::try_from("256").unwrap_err(), NotationError::OutOfRange);
    assert_eq!(Square::try_from("+300").unwrap_err(), NotationError::OutOfRange);
    assert_eq!(Square::try_from("000").unwrap_err(), NotationError::OutOfRange);
    assert_eq!(
        Square::try_from("18446744073709551616").unwrap_err(),
        NotationError::OutOfRange
    );
    assert_eq!(Square::try_from("0000000000000000000000032").unwrap(), Square::ThirtyTwo);
    assert_eq!(Square::try_from("++5").unwrap_err(), NotationError::InvalidFormat);
    assert_eq!(Square::try_from("300a").unwrap_err(), NotationError::InvalidFormat);
    assert_eq!(Square::try_from("").unwrap_err(), NotationError::InvalidFormat);
    assert_eq!(Square::try_from("+").unwrap_err(), NotationError::InvalidFormat);
    assert_eq!(Square::try_from("-1").unwrap_err(), NotationError::InvalidFormat);
    assert_eq!(Square::try_from("1 ").unwrap_err(), NotationError::InvalidFormat);
    assert_eq!(Square::try_from("a").unwrap_err(), NotationError::InvalidFormat);
    assert_eq!(Square::try_from("1_0").unwrap_err(), NotationError::InvalidFormat);
}
