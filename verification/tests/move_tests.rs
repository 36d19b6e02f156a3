use checke_rs::bitboard::MonoBitBoard;
use checke_rs::position::{Move, NotationError, Square, SquareConversionError};

#[test]
fn test_move_created_from_valid_checkers_notation_9x12() {
    assert!(Move::try_from("9x12").is_ok())
}

#[test]
fn test_move_created_from_valid_checkers_notation_10_12() {
    assert!(Move::try_from("10-12").is_ok())
}

#[test]
fn test_move_created_from_valid_checkers_notation_10x14() {
    assert!(Move::try_from("10x14").is_ok())
}

#[test]
fn test_move_error_from_invalid_checkers_notation_empty() {
    assert!(Move::try_from("").is_err())
}

#[test]
fn test_move_error_from_invalid_checkers_notation_a() {
    assert!(Move::try_from("a").is_err())
}

#[test]
fn test_move_error_from_invalid_checkers_notation_a_b() {
    assert!(Move::try_from("a-b").is_err())
}

#[test]
fn test_move_error_from_invalid_checkers_notation_cxd() {
    assert!(Move::try_from("cxd").is_err())
}

#[test]
fn test_move_error_from_invalid_checkers_notation_09x10() {
    assert!(Move::try_from("09x10").is_err())
}

#[test]
fn test_move_from_notation_reads_both_squares() {
    let m = Move::from_notation("18x25").unwrap();
    assert_eq!(m.source(), MonoBitBoard::from(Square::Eighteen));
    assert_eq!(m.destination(), MonoBitBoard::from(Square::TwentyFive));
    assert_eq!(m, Move::from_squares(Square::Eighteen, Square::TwentyFive));
}

#[test]
fn test_move_separators_parse_alike() {
    let expected = Move::from_squares(Square::Eleven, Square::Fifteen);
    assert_eq!(Move::from_notation("11-15").unwrap(), expected);
    assert_eq!(Move::from_notation("11x15").unwrap(), expected);
    assert_eq!(Move::from_notation("11X15").unwrap(), expected);
}

#[test]
fn test_move_notation_format_errors() {
    let texts = [
        "", "x", "1x", "x1", "1", "11", "1-", "-1", "1--2", "1x2x3", "1 x2", " 1x2", "1x2 ",
        "01x2", "1x02", "0x1", "1x0", "1+2", "1/2", "1,2", "+1x2", "1x+2", "1y2", "1\u{661}x2",
    ];
    for text in texts {
        assert_eq!(Move::from_notation(text).unwrap_err(), NotationError::InvalidFormat, "{}", text);
    }
}

#[test]
fn test_move_notation_range_errors() {
    assert_eq!(Move::from_notation("33x1").unwrap_err(), NotationError::OutOfRange);
    assert_eq!(Move::from_notation("1x33").unwrap_err(), NotationError::OutOfRange);
    assert_eq!(Move::from_notation("100-5").unwrap_err(), NotationError::OutOfRange);
    assert_eq!(Move::from_notation("255-5").unwrap_err(), NotationError::OutOfRange);
}

#[test]
fn test_move_notation_large_numbers_are_out_of_range() {
    assert_eq!(Move::from_notation("256-5").unwrap_err(), NotationError::OutOfRange);
    assert_eq!(Move::from_notation("300x1").unwrap_err(), NotationError::OutOfRange);
    assert_eq!(Move::from_notation("5-1000").unwrap_err(), NotationError::OutOfRange);
    assert_eq!(
        Move::from_notation("1x340282366920938463463374607431768211456").unwrap_err(),
        NotationError::OutOfRange
    );
}

#[test]
fn test_move_notation_error_of_the_source_comes_first() {
    assert_eq!(Move::from_notation("33x256").unwrap_err(), NotationError::OutOfRange);
    assert_eq!(Move::from_notation("256x33").unwrap_err(), NotationError::OutOfRange);
    assert_eq!(Move::from_notation("33xa").unwrap_err(), NotationError::InvalidFormat);
}

#[test]
fn test_move_to_notation_is_canonical() {
    assert_eq!(Move::from_notation("11x15").unwrap().to_notation().unwrap(), "11-15");
    assert_eq!(Move::from_notation("11-15").unwrap().to_notation().unwrap(), "11-15");
    assert_eq!(Move::from_notation("1X10").unwrap().to_notation().unwrap(), "1x10");
    assert_eq!(Move::from_notation("1-10").unwrap().to_notation().unwrap(), "1x10");
    assert_eq!(Move::from_notation("32-1").unwrap().to_notation().unwrap(), "32-1");
    assert_eq!(Move::from_notation("9x9").unwrap().to_notation().unwrap(), "9-9");
}

#[test]
fn test_move_notation_round_trip() {
    for source in Square::iter() {
        for destination in Square::iter() {
            let m = Move::from_squares(source, destination);
            let text = m.to_notation().unwrap();
            assert_eq!(Move::from_notation(&text).unwrap(), m);
        }
    }
}

#[test]
fn test_move_off_the_squares_has_no_notation() {
    let off = MonoBitBoard::new(1).unwrap();
    let on = MonoBitBoard::from(Square::One);
    assert_eq!(Move::new(off, on).to_notation().unwrap_err(), SquareConversionError);
    assert_eq!(Move::new(on, off).to_notation().unwrap_err(), SquareConversionError);
}

#[test]
fn test_move_to_bitboard_is_the_toggle_mask() {
    let m = Move::from_squares(Square::One, Square::ThirtyTwo);
    assert_eq!(m.to_bitboard().value(), 0x4000000000000002);
}

#[test]
fn test_move_conversions() {
    let expected = Move::from_squares(Square::Nine, Square::Thirteen);
    assert_eq!(Move::try_from((Square::Nine, Square::Thirteen)).unwrap(), expected);
    let cells = (MonoBitBoard::from(Square::Nine), MonoBitBoard::from(Square::Thirteen));
    assert_eq!(Move::try_from(cells).unwrap(), expected);
    assert_eq!(Move::new(cells.0, cells.1), expected);
}

#[test]
fn test_capture_of_jumps_in_all_directions() {
    let cases = [
        (Square::Eighteen, Square::Nine, Square::Fourteen),
        (Square::Eighteen, Square::Eleven, Square::Fifteen),
        (Square::Eighteen, Square::TwentyFive, Square::TwentyTwo),
        (Square::Eighteen, Square::TwentySeven, Square::TwentyThree),
    ];
    for (source, destination, between) in cases {
        let m = Move::from_squares(source, destination);
        assert_eq!(m.capture().unwrap(), MonoBitBoard::from(between));
    }
}

#[test]
fn test_capture_does_not_wrap_around_an_edge() {
    assert!(Move::from_squares(Square::Four, Square::Thirteen).capture().is_none());
    assert!(Move::from_squares(Square::Twelve, Square::Five).capture().is_none());
    assert!(Move::from_squares(Square::One, Square::One).capture().is_none());
    assert!(Move::from_squares(Square::One, Square::ThirtyTwo).capture().is_none());
}
