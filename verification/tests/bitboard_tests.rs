use checke_rs::bitboard::{BitBoard, CellIter, MonoBitBoard, MonoBitBoardError};

#[test]
fn test_bitboard_equals_u64() {
    let value = 0b101;
    let bitboard = BitBoard::new(value);
    assert_eq!(bitboard, value)
}

#[test]
fn test_mono_bitboard_result_does_not_error_with_single_bit() {
    let result = MonoBitBoard::new(0b100);

    assert!(result.is_ok())
}

#[test]
fn test_mono_bitboard_result_is_error_with_many_bits() {
    let result = MonoBitBoard::new(0b101);

    assert!(result.is_err())
}

#[test]
fn test_sub_boards_are_calculated_correctly() {
    let position = MonoBitBoard::new(0b010).unwrap();
    let bitboard = BitBoard::new(0b10001000);

    assert!(!bitboard.contains(position))
}

#[test]
fn test_pieces_returns_correct_bitboards() {
    let bb = BitBoard::new(0b00100100001);

    let pieces = bb.used_cells().collect();

    let expected_pieces = vec![
        MonoBitBoard::new(0b00000000001).unwrap(),
        MonoBitBoard::new(0b00000100000).unwrap(),
        MonoBitBoard::new(0b00100000000).unwrap(),
    ];
    assert_eq!(pieces, expected_pieces)
}

#[test]
fn test_cell_iter() {
    let bitboard = BitBoard::new(0b10000000_00000000_00000000_00000000_00000000_00000000_00000001);
    let pieces = CellIter::new(bitboard);

    assert_eq!(pieces.count(), 2)
}

#[test]
fn test_cell_with_all_empty_cells() {
    let bitboard = BitBoard::new(0b00000000_00000000_00000000_00000000_00000000_00000000_00000000);
    let pieces = CellIter::new(bitboard);

    assert_eq!(pieces.count(), 0)
}

#[test]
fn test_mono_bitboard_accepts_exactly_the_powers_of_two() {
    for exponent in 0..64u32 {
        let value = 1u64 << exponent;
        assert_eq!(MonoBitBoard::new(value).unwrap().value(), value);
    }
    assert_eq!(MonoBitBoard::new(0).unwrap_err(), MonoBitBoardError);
    assert_eq!(MonoBitBoard::new(3).unwrap_err(), MonoBitBoardError);
    assert_eq!(MonoBitBoard::new(u64::MAX).unwrap_err(), MonoBitBoardError);
    assert_eq!(MonoBitBoard::new(0x8000000000000001).unwrap_err(), MonoBitBoardError);
}

#[test]
fn test_mono_bitboard_converts_from_bitboard() {
    let cell = MonoBitBoard::try_from(BitBoard::new(0x80)).unwrap();
    assert_eq!(cell.value(), 0x80);
    assert!(MonoBitBoard::try_from(BitBoard::new(0x81)).is_err());
}

#[test]
fn test_used_cells_count_is_the_popcount() {
    let values = [
        0u64,
        1,
        0x8000000000000000,
        0x55AA55AA55AA55AA,
        u64::MAX,
        0x0123456789ABCDEF,
    ];
    for value in values {
        let cells = BitBoard::new(value).used_cells().collect();
        assert_eq!(cells.len(), value.count_ones() as usize);
        assert_eq!(BitBoard::new(value).used_cells().count(), value.count_ones() as usize);
    }
}

#[test]
fn test_used_cells_come_in_ascending_order() {
    let value = 0x8100000000000081u64;
    let cells = BitBoard::new(value).used_cells().collect();
    let values: Vec<u64> = cells.iter().map(|cell| cell.value()).collect();
    assert_eq!(values, vec![0x1, 0x80, 0x0100000000000000, 0x8000000000000000]);
}

#[test]
fn test_cell_iter_next_is_exhausted_for_good() {
    let mut cells = BitBoard::new(0b110).used_cells();
    assert_eq!(cells.next().unwrap().value(), 0b010);
    assert_eq!(cells.next().unwrap().value(), 0b100);
    assert!(cells.next().is_none());
    assert!(cells.next().is_none());
}

#[test]
fn test_bitboard_algebra() {
    let a = BitBoard::new(0b1100);
    let b = BitBoard::new(0b1010);
    assert_eq!((a & b).value(), 0b1000);
    assert_eq!((a | b).value(), 0b1110);
    assert_eq!((a ^ b).value(), 0b0110);
    let cell = MonoBitBoard::new(0b0100).unwrap();
    assert_eq!((a & cell).value(), 0b0100);
    assert_eq!((b | cell).value(), 0b1110);
    let other = MonoBitBoard::new(0b0001).unwrap();
    assert_eq!((cell & other).value(), 0);
    assert_eq!((cell | other).value(), 0b0101);
}

#[test]
fn test_bitboard_empty_and_contains() {
    assert!(BitBoard::new(0).empty());
    assert!(!BitBoard::new(8).empty());
    let cell = MonoBitBoard::new(8).unwrap();
    assert!(BitBoard::new(0b1000).contains(cell));
    assert!(!BitBoard::new(0).contains(cell));
}

#[test]
fn test_bitboard_equality_across_types() {
    let cell = MonoBitBoard::new(4).unwrap();
    assert!(BitBoard::new(4) == cell);
    assert!(cell == BitBoard::new(4));
    assert!(cell == 4u64);
    assert!(BitBoard::new(4) != BitBoard::new(5));
    assert!(cell != MonoBitBoard::new(8).unwrap());
}

#[test]
fn test_bitboard_xor_assign() {
    let mut board = BitBoard::new(0b1100);
    board ^= BitBoard::new(0b1010);
    assert_eq!(board.value(), 0b0110);
    board ^= BitBoard::new(0b0110);
    assert!(board.empty());
}
