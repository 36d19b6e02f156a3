use crate::bitboard::cell_bit;
use crate::bitboard::has_cell;
use crate::board::Player;
use crate::square::Square;
use vstd::prelude::*;

verus! {

/// The row of the cell with the given index: 0 for the cells 0 to 7, 7 for the cells 56 to 63.
pub open spec fn row_of(index: nat) -> int {
    index as int / 8
}

/// The column of the cell with the given index: the index of its bit within its row.
pub open spec fn column_of(index: nat) -> int {
    index as int % 8
}

/// Whether the cell `to` lies `distance` steps along a diagonal from the cell `from`, towards
/// higher rows where `rows` is 1 and towards lower rows where it is -1. Both cells lie on the
/// board: a diagonal does not wrap around an edge.
pub open spec fn diagonal(from: nat, to: nat, rows: int, distance: int) -> bool {
    &&& from < 64
    &&& to < 64
    &&& row_of(to) == row_of(from) + rows * distance
    &&& (column_of(to) == column_of(from) + distance || column_of(to) == column_of(from)
        - distance)
}

/// The direction in which the men of a player advance: Red towards the higher rows, Black
/// towards the lower rows.
pub open spec fn advance(player: Player) -> int {
    match player {
        Player::Red => 1,
        Player::Black => -1,
    }
}

/// Whether a piece on the cell `from` may move to the cell `to` by the rules of movement
/// alone, whatever else stands on the board: one diagonal step (a simple move) or two (a
/// jump), forwards for a man and in all four directions for a king.
pub open spec fn reaches(from: nat, to: nat, king: bool, player: Player) -> bool {
    ||| diagonal(from, to, advance(player), 1)
    ||| diagonal(from, to, advance(player), 2)
    ||| king && diagonal(from, to, -advance(player), 1)
    ||| king && diagonal(from, to, -advance(player), 2)
}

/// The cells one or two diagonal steps from the cells of `cells` towards the lower rows.
pub open spec fn toward_lower(cells: u64) -> u64 {
    ((cells & 0x7F7F7F7F7F7F7F7F) >> 7) | ((cells & 0xFEFEFEFEFEFEFEFE) >> 9) | ((cells
        & 0x3F3F3F3F3F3F3F3F) >> 14) | ((cells & 0xFCFCFCFCFCFCFCFC) >> 18)
}

/// The cells one or two diagonal steps from the cells of `cells` towards the higher rows.
pub open spec fn toward_higher(cells: u64) -> u64 {
    ((cells & 0xFEFEFEFEFEFEFEFE) << 7) | ((cells & 0x7F7F7F7F7F7F7F7F) << 9) | ((cells
        & 0xFCFCFCFCFCFCFCFC) << 14) | ((cells & 0x3F3F3F3F3F3F3F3F) << 18)
}

/// The pseudo-legal destinations of a piece on the single cell `cell`, as a board.
pub open spec fn destinations(cell: u64, king: bool, player: Player) -> u64 {
    if king {
        toward_lower(cell) | toward_higher(cell)
    } else {
        match player {
            Player::Red => toward_higher(cell),
            Player::Black => toward_lower(cell),
        }
    }
}

/// The pseudo-legal destinations of a man of Red, by the number of its square less one.
pub const RED_PIECE_MOVES: [u64; 32] = [
    0x0000000000000000,
    0x0000000000000000,
    0x0000000000000000,
    0x0000000000000000,
    0x4000000000000000,
    0x5000000000000000,
    0x1400000000000000,
    0x0500000000000000,
    0x10A0000000000000,
    0x4428000000000000,
    0x110A000000000000,
    0x0402000000000000,
    0x0020400000000000,
    0x0088500000000000,
    0x0022140000000000,
    0x0008050000000000,
    0x000010A000000000,
    0x0000442800000000,
    0x0000110A00000000,
    0x0000040200000000,
    0x0000002040000000,
    0x0000008850000000,
    0x0000002214000000,
    0x0000000805000000,
    0x0000000010A00000,
    0x0000000044280000,
    0x00000000110A0000,
    0x0000000004020000,
    0x0000000000204000,
    0x0000000000885000,
    0x0000000000221400,
    0x0000000000080500,
];

/// The pseudo-legal destinations of a man of Black, by the number of its square less one.
pub const BLACK_PIECE_MOVES: [u64; 32] = [
    0x00A0100000000000,
    0x0028440000000000,
    0x000A110000000000,
    0x0002040000000000,
    0x0000402000000000,
    0x0000508800000000,
    0x0000142200000000,
    0x0000050800000000,
    0x000000A010000000,
    0x0000002844000000,
    0x0000000A11000000,
    0x0000000204000000,
    0x0000000040200000,
    0x0000000050880000,
    0x0000000014220000,
    0x0000000005080000,
    0x0000000000A01000,
    0x0000000000284400,
    0x00000000000A1100,
    0x0000000000020400,
    0x0000000000004020,
    0x0000000000005088,
    0x0000000000001422,
    0x0000000000000508,
    0x00000000000000A0,
    0x0000000000000028,
    0x000000000000000A,
    0x0000000000000002,
    0x0000000000000000,
    0x0000000000000000,
    0x0000000000000000,
    0x0000000000000000,
];

/// The pseudo-legal destinations of a king, by the number of its square less one.
pub const KING_MOVES: [u64; 32] = [
    0x00A0100000000000,
    0x0028440000000000,
    0x000A110000000000,
    0x0002040000000000,
    0x4000402000000000,
    0x5000508800000000,
    0x1400142200000000,
    0x0500050800000000,
    0x10A000A010000000,
    0x4428002844000000,
    0x110A000A11000000,
    0x0402000204000000,
    0x0020400040200000,
    0x0088500050880000,
    0x0022140014220000,
    0x0008050005080000,
    0x000010A000A01000,
    0x0000442800284400,
    0x0000110A000A1100,
    0x0000040200020400,
    0x0000002040004020,
    0x0000008850005088,
    0x0000002214001422,
    0x0000000805000508,
    0x0000000010A000A0,
    0x0000000044280028,
    0x00000000110A000A,
    0x0000000004020002,
    0x0000000000204000,
    0x0000000000885000,
    0x0000000000221400,
    0x0000000000080500,
];

/// The tables hold, for each square, the destinations that the rules of movement give.
pub proof fn lemma_tables(square: Square)
    ensures
        RED_PIECE_MOVES[square.number() - 1] == destinations(square.bit(), false, Player::Red),
        BLACK_PIECE_MOVES[square.number() - 1] == destinations(
            square.bit(),
            false,
            Player::Black,
        ),
        forall|player: Player|
            KING_MOVES[square.number() - 1] == #[trigger] destinations(square.bit(), true, player),
{
    assert({
        &&& toward_higher(0x4000000000000000u64) == 0x0000000000000000u64
        &&& toward_higher(0x1000000000000000u64) == 0x0000000000000000u64
        &&& toward_higher(0x0400000000000000u64) == 0x0000000000000000u64
        &&& toward_higher(0x0100000000000000u64) == 0x0000000000000000u64
        &&& toward_higher(0x0080000000000000u64) == 0x4000000000000000u64
        &&& toward_higher(0x0020000000000000u64) == 0x5000000000000000u64
        &&& toward_higher(0x0008000000000000u64) == 0x1400000000000000u64
        &&& toward_higher(0x0002000000000000u64) == 0x0500000000000000u64
        &&& toward_higher(0x0000400000000000u64) == 0x10A0000000000000u64
        &&& toward_higher(0x0000100000000000u64) == 0x4428000000000000u64
        &&& toward_higher(0x0000040000000000u64) == 0x110A000000000000u64
        &&& toward_higher(0x0000010000000000u64) == 0x0402000000000000u64
        &&& toward_higher(0x0000008000000000u64) == 0x0020400000000000u64
        &&& toward_higher(0x0000002000000000u64) == 0x0088500000000000u64
        &&& toward_higher(0x0000000800000000u64) == 0x0022140000000000u64
        &&& toward_higher(0x0000000200000000u64) == 0x0008050000000000u64
        &&& toward_higher(0x0000000040000000u64) == 0x000010A000000000u64
        &&& toward_higher(0x0000000010000000u64) == 0x0000442800000000u64
        &&& toward_higher(0x0000000004000000u64) == 0x0000110A00000000u64
        &&& toward_higher(0x0000000001000000u64) == 0x0000040200000000u64
        &&& toward_higher(0x0000000000800000u64) == 0x0000002040000000u64
        &&& toward_higher(0x0000000000200000u64) == 0x0000008850000000u64
        &&& toward_higher(0x0000000000080000u64) == 0x0000002214000000u64
        &&& toward_higher(0x0000000000020000u64) == 0x0000000805000000u64
        &&& toward_higher(0x0000000000004000u64) == 0x0000000010A00000u64
        &&& toward_higher(0x0000000000001000u64) == 0x0000000044280000u64
        &&& toward_higher(0x0000000000000400u64) == 0x00000000110A0000u64
        &&& toward_higher(0x0000000000000100u64) == 0x0000000004020000u64
        &&& toward_higher(0x0000000000000080u64) == 0x0000000000204000u64
        &&& toward_higher(0x0000000000000020u64) == 0x0000000000885000u64
        &&& toward_higher(0x0000000000000008u64) == 0x0000000000221400u64
        &&& toward_higher(0x0000000000000002u64) == 0x0000000000080500u64
    }) by (bit_vector);
    assert({
        &&& toward_lower(0x4000000000000000u64) == 0x00A0100000000000u64
        &&& toward_lower(0x1000000000000000u64) == 0x0028440000000000u64
        &&& toward_lower(0x0400000000000000u64) == 0x000A110000000000u64
        &&& toward_lower(0x0100000000000000u64) == 0x0002040000000000u64
        &&& toward_lower(0x0080000000000000u64) == 0x0000402000000000u64
        &&& toward_lower(0x0020000000000000u64) == 0x0000508800000000u64
        &&& toward_lower(0x0008000000000000u64) == 0x0000142200000000u64
        &&& toward_lower(0x0002000000000000u64) == 0x0000050800000000u64
        &&& toward_lower(0x0000400000000000u64) == 0x000000A010000000u64
        &&& toward_lower(0x0000100000000000u64) == 0x0000002844000000u64
        &&& toward_lower(0x0000040000000000u64) == 0x0000000A11000000u64
        &&& toward_lower(0x0000010000000000u64) == 0x0000000204000000u64
        &&& toward_lower(0x0000008000000000u64) == 0x0000000040200000u64
        &&& toward_lower(0x0000002000000000u64) == 0x0000000050880000u64
        &&& toward_lower(0x0000000800000000u64) == 0x0000000014220000u64
        &&& toward_lower(0x0000000200000000u64) == 0x0000000005080000u64
        &&& toward_lower(0x0000000040000000u64) == 0x0000000000A01000u64
        &&& toward_lower(0x0000000010000000u64) == 0x0000000000284400u64
        &&& toward_lower(0x0000000004000000u64) == 0x00000000000A1100u64
        &&& toward_lower(0x0000000001000000u64) == 0x0000000000020400u64
        &&& toward_lower(0x0000000000800000u64) == 0x0000000000004020u64
        &&& toward_lower(0x0000000000200000u64) == 0x0000000000005088u64
        &&& toward_lower(0x0000000000080000u64) == 0x0000000000001422u64
        &&& toward_lower(0x0000000000020000u64) == 0x0000000000000508u64
        &&& toward_lower(0x0000000000004000u64) == 0x00000000000000A0u64
        &&& toward_lower(0x0000000000001000u64) == 0x0000000000000028u64
        &&& toward_lower(0x0000000000000400u64) == 0x000000000000000Au64
        &&& toward_lower(0x0000000000000100u64) == 0x0000000000000002u64
        &&& toward_lower(0x0000000000000080u64) == 0x0000000000000000u64
        &&& toward_lower(0x0000000000000020u64) == 0x0000000000000000u64
        &&& toward_lower(0x0000000000000008u64) == 0x0000000000000000u64
        &&& toward_lower(0x0000000000000002u64) == 0x0000000000000000u64
    }) by (bit_vector);
    assert({
        &&& 0x00A0100000000000u64 | 0x0000000000000000u64 == 0x00A0100000000000u64
        &&& 0x0028440000000000u64 | 0x0000000000000000u64 == 0x0028440000000000u64
        &&& 0x000A110000000000u64 | 0x0000000000000000u64 == 0x000A110000000000u64
        &&& 0x0002040000000000u64 | 0x0000000000000000u64 == 0x0002040000000000u64
        &&& 0x0000402000000000u64 | 0x4000000000000000u64 == 0x4000402000000000u64
        &&& 0x0000508800000000u64 | 0x5000000000000000u64 == 0x5000508800000000u64
        &&& 0x0000142200000000u64 | 0x1400000000000000u64 == 0x1400142200000000u64
        &&& 0x0000050800000000u64 | 0x0500000000000000u64 == 0x0500050800000000u64
        &&& 0x000000A010000000u64 | 0x10A0000000000000u64 == 0x10A000A010000000u64
        &&& 0x0000002844000000u64 | 0x4428000000000000u64 == 0x4428002844000000u64
        &&& 0x0000000A11000000u64 | 0x110A000000000000u64 == 0x110A000A11000000u64
        &&& 0x0000000204000000u64 | 0x0402000000000000u64 == 0x0402000204000000u64
        &&& 0x0000000040200000u64 | 0x0020400000000000u64 == 0x0020400040200000u64
        &&& 0x0000000050880000u64 | 0x0088500000000000u64 == 0x0088500050880000u64
        &&& 0x0000000014220000u64 | 0x0022140000000000u64 == 0x0022140014220000u64
        &&& 0x0000000005080000u64 | 0x0008050000000000u64 == 0x0008050005080000u64
        &&& 0x0000000000A01000u64 | 0x000010A000000000u64 == 0x000010A000A01000u64
        &&& 0x0000000000284400u64 | 0x0000442800000000u64 == 0x0000442800284400u64
        &&& 0x00000000000A1100u64 | 0x0000110A00000000u64 == 0x0000110A000A1100u64
        &&& 0x0000000000020400u64 | 0x0000040200000000u64 == 0x0000040200020400u64
        &&& 0x0000000000004020u64 | 0x0000002040000000u64 == 0x0000002040004020u64
        &&& 0x0000000000005088u64 | 0x0000008850000000u64 == 0x0000008850005088u64
        &&& 0x0000000000001422u64 | 0x0000002214000000u64 == 0x0000002214001422u64
        &&& 0x0000000000000508u64 | 0x0000000805000000u64 == 0x0000000805000508u64
        &&& 0x00000000000000A0u64 | 0x0000000010A00000u64 == 0x0000000010A000A0u64
        &&& 0x0000000000000028u64 | 0x0000000044280000u64 == 0x0000000044280028u64
        &&& 0x000000000000000Au64 | 0x00000000110A0000u64 == 0x00000000110A000Au64
        &&& 0x0000000000000002u64 | 0x0000000004020000u64 == 0x0000000004020002u64
        &&& 0x0000000000000000u64 | 0x0000000000204000u64 == 0x0000000000204000u64
        &&& 0x0000000000000000u64 | 0x0000000000885000u64 == 0x0000000000885000u64
        &&& 0x0000000000000000u64 | 0x0000000000221400u64 == 0x0000000000221400u64
        &&& 0x0000000000000000u64 | 0x0000000000080500u64 == 0x0000000000080500u64
    }) by (bit_vector);
    match square {
        Square::One => {
            assert(RED_PIECE_MOVES[0] == 0x0000000000000000u64);
            assert(BLACK_PIECE_MOVES[0] == 0x00A0100000000000u64);
            assert(KING_MOVES[0] == 0x00A0100000000000u64);
        },
        Square::Two => {
            assert(RED_PIECE_MOVES[1] == 0x0000000000000000u64);
            assert(BLACK_PIECE_MOVES[1] == 0x0028440000000000u64);
            assert(KING_MOVES[1] == 0x0028440000000000u64);
        },
        Square::Three => {
            assert(RED_PIECE_MOVES[2] == 0x0000000000000000u64);
            assert(BLACK_PIECE_MOVES[2] == 0x000A110000000000u64);
            assert(KING_MOVES[2] == 0x000A110000000000u64);
        },
        Square::Four => {
            assert(RED_PIECE_MOVES[3] == 0x0000000000000000u64);
            assert(BLACK_PIECE_MOVES[3] == 0x0002040000000000u64);
            assert(KING_MOVES[3] == 0x0002040000000000u64);
        },
        Square::Five => {
            assert(RED_PIECE_MOVES[4] == 0x4000000000000000u64);
            assert(BLACK_PIECE_MOVES[4] == 0x0000402000000000u64);
            assert(KING_MOVES[4] == 0x4000402000000000u64);
        },
        Square::Six => {
            assert(RED_PIECE_MOVES[5] == 0x5000000000000000u64);
            assert(BLACK_PIECE_MOVES[5] == 0x0000508800000000u64);
            assert(KING_MOVES[5] == 0x5000508800000000u64);
        },
        Square::Seven => {
            assert(RED_PIECE_MOVES[6] == 0x1400000000000000u64);
            assert(BLACK_PIECE_MOVES[6] == 0x0000142200000000u64);
            assert(KING_MOVES[6] == 0x1400142200000000u64);
        },
        Square::Eight => {
            assert(RED_PIECE_MOVES[7] == 0x0500000000000000u64);
            assert(BLACK_PIECE_MOVES[7] == 0x0000050800000000u64);
            assert(KING_MOVES[7] == 0x0500050800000000u64);
        },
        Square::Nine => {
            assert(RED_PIECE_MOVES[8] == 0x10A0000000000000u64);
            assert(BLACK_PIECE_MOVES[8] == 0x000000A010000000u64);
            assert(KING_MOVES[8] == 0x10A000A010000000u64);
        },
        Square::Ten => {
            assert(RED_PIECE_MOVES[9] == 0x4428000000000000u64);
            assert(BLACK_PIECE_MOVES[9] == 0x0000002844000000u64);
            assert(KING_MOVES[9] == 0x4428002844000000u64);
        },
        Square::Eleven => {
            assert(RED_PIECE_MOVES[10] == 0x110A000000000000u64);
            assert(BLACK_PIECE_MOVES[10] == 0x0000000A11000000u64);
            assert(KING_MOVES[10] == 0x110A000A11000000u64);
        },
        Square::Twelve => {
            assert(RED_PIECE_MOVES[11] == 0x0402000000000000u64);
            assert(BLACK_PIECE_MOVES[11] == 0x0000000204000000u64);
            assert(KING_MOVES[11] == 0x0402000204000000u64);
        },
        Square::Thirteen => {
            assert(RED_PIECE_MOVES[12] == 0x0020400000000000u64);
            assert(BLACK_PIECE_MOVES[12] == 0x0000000040200000u64);
            assert(KING_MOVES[12] == 0x0020400040200000u64);
        },
        Square::Fourteen => {
            assert(RED_PIECE_MOVES[13] == 0x0088500000000000u64);
            assert(BLACK_PIECE_MOVES[13] == 0x0000000050880000u64);
            assert(KING_MOVES[13] == 0x0088500050880000u64);
        },
        Square::Fifteen => {
            assert(RED_PIECE_MOVES[14] == 0x0022140000000000u64);
            assert(BLACK_PIECE_MOVES[14] == 0x0000000014220000u64);
            assert(KING_MOVES[14] == 0x0022140014220000u64);
        },
        Square::Sixteen => {
            assert(RED_PIECE_MOVES[15] == 0x0008050000000000u64);
            assert(BLACK_PIECE_MOVES[15] == 0x0000000005080000u64);
            assert(KING_MOVES[15] == 0x0008050005080000u64);
        },
        Square::Seventeen => {
            assert(RED_PIECE_MOVES[16] == 0x000010A000000000u64);
            assert(BLACK_PIECE_MOVES[16] == 0x0000000000A01000u64);
            assert(KING_MOVES[16] == 0x000010A000A01000u64);
        },
        Square::Eighteen => {
            assert(RED_PIECE_MOVES[17] == 0x0000442800000000u64);
            assert(BLACK_PIECE_MOVES[17] == 0x0000000000284400u64);
            assert(KING_MOVES[17] == 0x0000442800284400u64);
        },
        Square::Nineteen => {
            assert(RED_PIECE_MOVES[18] == 0x0000110A00000000u64);
            assert(BLACK_PIECE_MOVES[18] == 0x00000000000A1100u64);
            assert(KING_MOVES[18] == 0x0000110A000A1100u64);
        },
        Square::Twenty => {
            assert(RED_PIECE_MOVES[19] == 0x0000040200000000u64);
            assert(BLACK_PIECE_MOVES[19] == 0x0000000000020400u64);
            assert(KING_MOVES[19] == 0x0000040200020400u64);
        },
        Square::TwentyOne => {
            assert(RED_PIECE_MOVES[20] == 0x0000002040000000u64);
            assert(BLACK_PIECE_MOVES[20] == 0x0000000000004020u64);
            assert(KING_MOVES[20] == 0x0000002040004020u64);
        },
        Square::TwentyTwo => {
            assert(RED_PIECE_MOVES[21] == 0x0000008850000000u64);
            assert(BLACK_PIECE_MOVES[21] == 0x0000000000005088u64);
            assert(KING_MOVES[21] == 0x0000008850005088u64);
        },
        Square::TwentyThree => {
            assert(RED_PIECE_MOVES[22] == 0x0000002214000000u64);
            assert(BLACK_PIECE_MOVES[22] == 0x0000000000001422u64);
            assert(KING_MOVES[22] == 0x0000002214001422u64);
        },
        Square::TwentyFour => {
            assert(RED_PIECE_MOVES[23] == 0x0000000805000000u64);
            assert(BLACK_PIECE_MOVES[23] == 0x0000000000000508u64);
            assert(KING_MOVES[23] == 0x0000000805000508u64);
        },
        Square::TwentyFive => {
            assert(RED_PIECE_MOVES[24] == 0x0000000010A00000u64);
            assert(BLACK_PIECE_MOVES[24] == 0x00000000000000A0u64);
            assert(KING_MOVES[24] == 0x0000000010A000A0u64);
        },
        Square::TwentySix => {
            assert(RED_PIECE_MOVES[25] == 0x0000000044280000u64);
            assert(BLACK_PIECE_MOVES[25] == 0x0000000000000028u64);
            assert(KING_MOVES[25] == 0x0000000044280028u64);
        },
        Square::TwentySeven => {
            assert(RED_PIECE_MOVES[26] == 0x00000000110A0000u64);
            assert(BLACK_PIECE_MOVES[26] == 0x000000000000000Au64);
            assert(KING_MOVES[26] == 0x00000000110A000Au64);
        },
        Square::TwentyEight => {
            assert(RED_PIECE_MOVES[27] == 0x0000000004020000u64);
            assert(BLACK_PIECE_MOVES[27] == 0x0000000000000002u64);
            assert(KING_MOVES[27] == 0x0000000004020002u64);
        },
        Square::TwentyNine => {
            assert(RED_PIECE_MOVES[28] == 0x0000000000204000u64);
            assert(BLACK_PIECE_MOVES[28] == 0x0000000000000000u64);
            assert(KING_MOVES[28] == 0x0000000000204000u64);
        },
        Square::Thirty => {
            assert(RED_PIECE_MOVES[29] == 0x0000000000885000u64);
            assert(BLACK_PIECE_MOVES[29] == 0x0000000000000000u64);
            assert(KING_MOVES[29] == 0x0000000000885000u64);
        },
        Square::ThirtyOne => {
            assert(RED_PIECE_MOVES[30] == 0x0000000000221400u64);
            assert(BLACK_PIECE_MOVES[30] == 0x0000000000000000u64);
            assert(KING_MOVES[30] == 0x0000000000221400u64);
        },
        Square::ThirtyTwo => {
            assert(RED_PIECE_MOVES[31] == 0x0000000000080500u64);
            assert(BLACK_PIECE_MOVES[31] == 0x0000000000000000u64);
            assert(KING_MOVES[31] == 0x0000000000080500u64);
        },
    }
}

/// Looks up the pseudo-legal destinations of a piece on the given square.
pub fn lookup_moves(square: Square, king: bool, player: Player) -> (moves: u64)
    ensures
        moves == destinations(square.bit(), king, player),
{
    let index: usize = (square.to_number() - 1) as usize;
    proof {
        lemma_tables(square);
    }
    match king {
        true => KING_MOVES[index],
        false => match player {
            Player::Red => RED_PIECE_MOVES[index],
            Player::Black => BLACK_PIECE_MOVES[index],
        },
    }
}

/// The destinations of the tables are the cells that the rules of movement reach: from a
/// single cell, [destinations] holds the cell `to` exactly where [reaches] says that a piece
/// may move there.
pub proof fn lemma_destinations_reach(from: nat, to: nat, king: bool, player: Player)
    requires
        from < 64,
        to < 64,
    ensures
        has_cell(destinations(cell_bit(from), king, player), to) <==> reaches(
            from,
            to,
            king,
            player,
        ),
{
    let f = from as u64;
    let t = to as u64;
    assert(f < 64 && t < 64 ==> (toward_lower(1u64 << f) & (1u64 << t) != 0 <==> {
        ||| f % 8 != 7 && t + 7 == f
        ||| f % 8 != 0 && t + 9 == f
        ||| f % 8 < 6 && t + 14 == f
        ||| f % 8 >= 2 && t + 18 == f
    })) by (bit_vector);
    assert(f < 64 && t < 64 ==> (toward_higher(1u64 << f) & (1u64 << t) != 0 <==> {
        ||| f % 8 != 0 && f + 7 == t
        ||| f % 8 != 7 && f + 9 == t
        ||| f % 8 >= 2 && f + 14 == t
        ||| f % 8 < 6 && f + 18 == t
    })) by (bit_vector);
    crate::bitboard::lemma_algebra_on_cells(
        toward_lower(cell_bit(from)),
        toward_higher(cell_bit(from)),
        to,
    );
    assert(diagonal(from, to, -1, 1) <==> (f % 8 != 7 && t + 7 == f) || (f % 8 != 0 && t + 9
        == f));
    assert(diagonal(from, to, -1, 2) <==> (f % 8 < 6 && t + 14 == f) || (f % 8 >= 2 && t + 18
        == f));
    assert(diagonal(from, to, 1, 1) <==> (f % 8 != 0 && f + 7 == t) || (f % 8 != 7 && f + 9
        == t));
    assert(diagonal(from, to, 1, 2) <==> (f % 8 >= 2 && f + 14 == t) || (f % 8 < 6 && f + 18
        == t));
}

} // verus!
