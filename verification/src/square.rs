use crate::bitboard::BitBoard;
use crate::bitboard::cell_bit;
use crate::bitboard::is_single_cell;
use crate::bitboard::MonoBitBoard;
use crate::notation::decimal_number;
use crate::notation::holds_decimal;
use crate::notation::is_decimal;
use crate::notation::parse_u8;
use crate::position::NotationError;
use crate::position::SquareConversionError;
use vstd::prelude::*;
use vstd::std_specs::convert::FromSpecImpl;
use vstd::std_specs::convert::TryFromSpecImpl;

verus! {

/// Represents every valid square on a classical checkers board.
#[derive(Copy, Clone, Debug, PartialEq, Eq, Structural)]
pub enum Square {
    One,
    Two,
    Three,
    Four,
    Five,
    Six,
    Seven,
    Eight,
    Nine,
    Ten,
    Eleven,
    Twelve,
    Thirteen,
    Fourteen,
    Fifteen,
    Sixteen,
    Seventeen,
    Eighteen,
    Nineteen,
    Twenty,
    TwentyOne,
    TwentyTwo,
    TwentyThree,
    TwentyFour,
    TwentyFive,
    TwentySix,
    TwentySeven,
    TwentyEight,
    TwentyNine,
    Thirty,
    ThirtyOne,
    ThirtyTwo,
}

/// The square that carries the given number; square thirty-two for a number that no square
/// carries.
pub open spec fn square_of_number(number: u8) -> Square {
    match number {
        1 => Square::One,
        2 => Square::Two,
        3 => Square::Three,
        4 => Square::Four,
        5 => Square::Five,
        6 => Square::Six,
        7 => Square::Seven,
        8 => Square::Eight,
        9 => Square::Nine,
        10 => Square::Ten,
        11 => Square::Eleven,
        12 => Square::Twelve,
        13 => Square::Thirteen,
        14 => Square::Fourteen,
        15 => Square::Fifteen,
        16 => Square::Sixteen,
        17 => Square::Seventeen,
        18 => Square::Eighteen,
        19 => Square::Nineteen,
        20 => Square::Twenty,
        21 => Square::TwentyOne,
        22 => Square::TwentyTwo,
        23 => Square::TwentyThree,
        24 => Square::TwentyFour,
        25 => Square::TwentyFive,
        26 => Square::TwentySix,
        27 => Square::TwentySeven,
        28 => Square::TwentyEight,
        29 => Square::TwentyNine,
        30 => Square::Thirty,
        31 => Square::ThirtyOne,
        _ => Square::ThirtyTwo,
    }
}

/// The square that `text` names. Text that is no decimal number is of no valid format; a
/// decimal number names the square that carries it, and is out of range where no square
/// does, however large it is.
pub open spec fn parse_square(text: Seq<char>) -> Result<Square, NotationError> {
    if !is_decimal(text) {
        Err(NotationError::InvalidFormat)
    } else if 1 <= decimal_number(text) <= 32 {
        Ok(square_of_number(decimal_number(text) as u8))
    } else {
        Err(NotationError::OutOfRange)
    }
}

impl Square {
    /// The number of this square in the conventional numbering of the checkers board, from 1
    /// to 32.
    pub open spec fn number(self) -> nat {
        match self {
            Square::One => 1,
            Square::Two => 2,
            Square::Three => 3,
            Square::Four => 4,
            Square::Five => 5,
            Square::Six => 6,
            Square::Seven => 7,
            Square::Eight => 8,
            Square::Nine => 9,
            Square::Ten => 10,
            Square::Eleven => 11,
            Square::Twelve => 12,
            Square::Thirteen => 13,
            Square::Fourteen => 14,
            Square::Fifteen => 15,
            Square::Sixteen => 16,
            Square::Seventeen => 17,
            Square::Eighteen => 18,
            Square::Nineteen => 19,
            Square::Twenty => 20,
            Square::TwentyOne => 21,
            Square::TwentyTwo => 22,
            Square::TwentyThree => 23,
            Square::TwentyFour => 24,
            Square::TwentyFive => 25,
            Square::TwentySix => 26,
            Square::TwentySeven => 27,
            Square::TwentyEight => 28,
            Square::TwentyNine => 29,
            Square::Thirty => 30,
            Square::ThirtyOne => 31,
            Square::ThirtyTwo => 32,
        }
    }

    /// The index, from 0 to 63, of the cell on which this square lies. The squares are
    /// numbered row by row, four to a row, from the row of the cells 56 to 63 down to the row
    /// of the cells 0 to 7. Within a row they descend from the cell with the highest index,
    /// and the rows alternate between the even and the odd cells.
    pub open spec fn cell_index(self) -> nat {
        let rank = (self.number() - 1) / 4;
        let file = (self.number() - 1) % 4;
        (8 * (7 - rank) + 6 + rank % 2 - 2 * file) as nat
    }

    /// The board on which this square alone is occupied.
    pub open spec fn bit(self) -> u64 {
        match self {
            Square::One => 0x4000000000000000,
            Square::Two => 0x1000000000000000,
            Square::Three => 0x0400000000000000,
            Square::Four => 0x0100000000000000,
            Square::Five => 0x0080000000000000,
            Square::Six => 0x0020000000000000,
            Square::Seven => 0x0008000000000000,
            Square::Eight => 0x0002000000000000,
            Square::Nine => 0x0000400000000000,
            Square::Ten => 0x0000100000000000,
            Square::Eleven => 0x0000040000000000,
            Square::Twelve => 0x0000010000000000,
            Square::Thirteen => 0x0000008000000000,
            Square::Fourteen => 0x0000002000000000,
            Square::Fifteen => 0x0000000800000000,
            Square::Sixteen => 0x0000000200000000,
            Square::Seventeen => 0x0000000040000000,
            Square::Eighteen => 0x0000000010000000,
            Square::Nineteen => 0x0000000004000000,
            Square::Twenty => 0x0000000001000000,
            Square::TwentyOne => 0x0000000000800000,
            Square::TwentyTwo => 0x0000000000200000,
            Square::TwentyThree => 0x0000000000080000,
            Square::TwentyFour => 0x0000000000020000,
            Square::TwentyFive => 0x0000000000004000,
            Square::TwentySix => 0x0000000000001000,
            Square::TwentySeven => 0x0000000000000400,
            Square::TwentyEight => 0x0000000000000100,
            Square::TwentyNine => 0x0000000000000080,
            Square::Thirty => 0x0000000000000020,
            Square::ThirtyOne => 0x0000000000000008,
            Square::ThirtyTwo => 0x0000000000000002,
        }
    }

    /// Every square, in ascending order of their numbers.
    pub open spec fn all() -> Seq<Square> {
        Seq::new(32, |i: int| square_of_number((i + 1) as u8))
    }

    /// The square with the given number, where there is one.
    pub open spec fn from_number(number: u8) -> Result<Square, NotationError> {
        if 1 <= number <= 32 {
            Ok(square_of_number(number))
        } else {
            Err(NotationError::OutOfRange)
        }
    }

    /// The square that lies on the single cell of the board `cell`, where there is one.
    pub open spec fn of_cell(cell: u64) -> Result<Square, SquareConversionError> {
        if exists|square: Square| square.bit() == cell {
            Ok(choose|square: Square| square.bit() == cell)
        } else {
            Err(SquareConversionError)
        }
    }

    /// Provides all square values, in ascending order of their numbers.
    pub fn iter() -> (squares: Vec<Self>)
        ensures
            squares@ == Self::all(),
    {
        let squares = vec![
            Square::One, Square::Two, Square::Three, Square::Four,
            Square::Five, Square::Six, Square::Seven, Square::Eight,
            Square::Nine, Square::Ten, Square::Eleven, Square::Twelve,
            Square::Thirteen, Square::Fourteen, Square::Fifteen, Square::Sixteen,
            Square::Seventeen, Square::Eighteen, Square::Nineteen, Square::Twenty,
            Square::TwentyOne, Square::TwentyTwo, Square::TwentyThree, Square::TwentyFour,
            Square::TwentyFive, Square::TwentySix, Square::TwentySeven, Square::TwentyEight,
            Square::TwentyNine, Square::Thirty, Square::ThirtyOne, Square::ThirtyTwo,
        ];
        assert(squares@ =~= Self::all());
        squares
    }

    /// The bitboard on which this square alone is occupied.
    pub fn as_bitboard(&self) -> (board: BitBoard)
        ensures
            board@ == self.bit(),
    {
        proof {
            MonoBitBoard::lemma_from_cell();
        }
        BitBoard::new(MonoBitBoard::from(*self).value())
    }

    /// Returns the number of the square, from 1 to 32.
    pub fn as_number(&self) -> (number: u8)
        ensures
            number == self.number(),
            1 <= number <= 32,
    {
        self.to_number()
    }

    /// Returns the square instance represented as a u8.
    pub fn to_number(&self) -> (number: u8)
        ensures
            number == self.number(),
            1 <= number <= 32,
    {
        match self {
            Square::One => 1,
            Square::Two => 2,
            Square::Three => 3,
            Square::Four => 4,
            Square::Five => 5,
            Square::Six => 6,
            Square::Seven => 7,
            Square::Eight => 8,
            Square::Nine => 9,
            Square::Ten => 10,
            Square::Eleven => 11,
            Square::Twelve => 12,
            Square::Thirteen => 13,
            Square::Fourteen => 14,
            Square::Fifteen => 15,
            Square::Sixteen => 16,
            Square::Seventeen => 17,
            Square::Eighteen => 18,
            Square::Nineteen => 19,
            Square::Twenty => 20,
            Square::TwentyOne => 21,
            Square::TwentyTwo => 22,
            Square::TwentyThree => 23,
            Square::TwentyFour => 24,
            Square::TwentyFive => 25,
            Square::TwentySix => 26,
            Square::TwentySeven => 27,
            Square::TwentyEight => 28,
            Square::TwentyNine => 29,
            Square::Thirty => 30,
            Square::ThirtyOne => 31,
            Square::ThirtyTwo => 32,
        }
    }
}

/// Each square lies on a single cell, and on the cell that its number gives: the table of
/// [Square::bit] reproduces the layout that [Square::cell_index] describes.
pub proof fn lemma_square_cell(square: Square)
    ensures
        square.cell_index() < 64,
        square.bit() == cell_bit(square.cell_index()),
        is_single_cell(square.bit()),
{
    assert({
        &&& 1u64 << 62u64 == 0x4000000000000000u64
        &&& 1u64 << 60u64 == 0x1000000000000000u64
        &&& 1u64 << 58u64 == 0x0400000000000000u64
        &&& 1u64 << 56u64 == 0x0100000000000000u64
        &&& 1u64 << 55u64 == 0x0080000000000000u64
        &&& 1u64 << 53u64 == 0x0020000000000000u64
        &&& 1u64 << 51u64 == 0x0008000000000000u64
        &&& 1u64 << 49u64 == 0x0002000000000000u64
        &&& 1u64 << 46u64 == 0x0000400000000000u64
        &&& 1u64 << 44u64 == 0x0000100000000000u64
        &&& 1u64 << 42u64 == 0x0000040000000000u64
        &&& 1u64 << 40u64 == 0x0000010000000000u64
        &&& 1u64 << 39u64 == 0x0000008000000000u64
        &&& 1u64 << 37u64 == 0x0000002000000000u64
        &&& 1u64 << 35u64 == 0x0000000800000000u64
        &&& 1u64 << 33u64 == 0x0000000200000000u64
        &&& 1u64 << 30u64 == 0x0000000040000000u64
        &&& 1u64 << 28u64 == 0x0000000010000000u64
        &&& 1u64 << 26u64 == 0x0000000004000000u64
        &&& 1u64 << 24u64 == 0x0000000001000000u64
        &&& 1u64 << 23u64 == 0x0000000000800000u64
        &&& 1u64 << 21u64 == 0x0000000000200000u64
        &&& 1u64 << 19u64 == 0x0000000000080000u64
        &&& 1u64 << 17u64 == 0x0000000000020000u64
        &&& 1u64 << 14u64 == 0x0000000000004000u64
        &&& 1u64 << 12u64 == 0x0000000000001000u64
        &&& 1u64 << 10u64 == 0x0000000000000400u64
        &&& 1u64 << 8u64 == 0x0000000000000100u64
        &&& 1u64 << 7u64 == 0x0000000000000080u64
        &&& 1u64 << 5u64 == 0x0000000000000020u64
        &&& 1u64 << 3u64 == 0x0000000000000008u64
        &&& 1u64 << 1u64 == 0x0000000000000002u64
    }) by (bit_vector);
    match square {
        Square::One => {
            assert(square.cell_index() == 62);
        },
        Square::Two => {
            assert(square.cell_index() == 60);
        },
        Square::Three => {
            assert(square.cell_index() == 58);
        },
        Square::Four => {
            assert(square.cell_index() == 56);
        },
        Square::Five => {
            assert(square.cell_index() == 55);
        },
        Square::Six => {
            assert(square.cell_index() == 53);
        },
        Square::Seven => {
            assert(square.cell_index() == 51);
        },
        Square::Eight => {
            assert(square.cell_index() == 49);
        },
        Square::Nine => {
            assert(square.cell_index() == 46);
        },
        Square::Ten => {
            assert(square.cell_index() == 44);
        },
        Square::Eleven => {
            assert(square.cell_index() == 42);
        },
        Square::Twelve => {
            assert(square.cell_index() == 40);
        },
        Square::Thirteen => {
            assert(square.cell_index() == 39);
        },
        Square::Fourteen => {
            assert(square.cell_index() == 37);
        },
        Square::Fifteen => {
            assert(square.cell_index() == 35);
        },
        Square::Sixteen => {
            assert(square.cell_index() == 33);
        },
        Square::Seventeen => {
            assert(square.cell_index() == 30);
        },
        Square::Eighteen => {
            assert(square.cell_index() == 28);
        },
        Square::Nineteen => {
            assert(square.cell_index() == 26);
        },
        Square::Twenty => {
            assert(square.cell_index() == 24);
        },
        Square::TwentyOne => {
            assert(square.cell_index() == 23);
        },
        Square::TwentyTwo => {
            assert(square.cell_index() == 21);
        },
        Square::TwentyThree => {
            assert(square.cell_index() == 19);
        },
        Square::TwentyFour => {
            assert(square.cell_index() == 17);
        },
        Square::TwentyFive => {
            assert(square.cell_index() == 14);
        },
        Square::TwentySix => {
            assert(square.cell_index() == 12);
        },
        Square::TwentySeven => {
            assert(square.cell_index() == 10);
        },
        Square::TwentyEight => {
            assert(square.cell_index() == 8);
        },
        Square::TwentyNine => {
            assert(square.cell_index() == 7);
        },
        Square::Thirty => {
            assert(square.cell_index() == 5);
        },
        Square::ThirtyOne => {
            assert(square.cell_index() == 3);
        },
        Square::ThirtyTwo => {
            assert(square.cell_index() == 1);
        },
    }
    assert(square.bit() == cell_bit(square.cell_index()));
}

/// The squares and their cells correspond one to one: no two squares lie on the same cell,
/// and converting a square to its cell and back gives the square again. So do the squares
/// and their numbers.
pub proof fn lemma_square_round_trip(square: Square)
    ensures
        Square::of_cell(square.bit()) == Ok::<Square, SquareConversionError>(square),
        forall|other: Square| other.bit() == square.bit() ==> other == square,
        1 <= square.number() <= 32,
        Square::from_number(square.number() as u8) == Ok::<Square, NotationError>(square),
{
}

impl From<Square> for MonoBitBoard {
    /// The board on which the given square alone is occupied.
    fn from(value: Square) -> (cell: MonoBitBoard) {
        let bits: u64 = match value {
            Square::One => 0x4000000000000000,
            Square::Two => 0x1000000000000000,
            Square::Three => 0x0400000000000000,
            Square::Four => 0x0100000000000000,
            Square::Five => 0x0080000000000000,
            Square::Six => 0x0020000000000000,
            Square::Seven => 0x0008000000000000,
            Square::Eight => 0x0002000000000000,
            Square::Nine => 0x0000400000000000,
            Square::Ten => 0x0000100000000000,
            Square::Eleven => 0x0000040000000000,
            Square::Twelve => 0x0000010000000000,
            Square::Thirteen => 0x0000008000000000,
            Square::Fourteen => 0x0000002000000000,
            Square::Fifteen => 0x0000000800000000,
            Square::Sixteen => 0x0000000200000000,
            Square::Seventeen => 0x0000000040000000,
            Square::Eighteen => 0x0000000010000000,
            Square::Nineteen => 0x0000000004000000,
            Square::Twenty => 0x0000000001000000,
            Square::TwentyOne => 0x0000000000800000,
            Square::TwentyTwo => 0x0000000000200000,
            Square::TwentyThree => 0x0000000000080000,
            Square::TwentyFour => 0x0000000000020000,
            Square::TwentyFive => 0x0000000000004000,
            Square::TwentySix => 0x0000000000001000,
            Square::TwentySeven => 0x0000000000000400,
            Square::TwentyEight => 0x0000000000000100,
            Square::TwentyNine => 0x0000000000000080,
            Square::Thirty => 0x0000000000000020,
            Square::ThirtyOne => 0x0000000000000008,
            Square::ThirtyTwo => 0x0000000000000002,
        };
        proof {
            lemma_square_cell(value);
        }
        MonoBitBoard::new(bits).unwrap()
    }
}

impl FromSpecImpl<Square> for MonoBitBoard {
    open spec fn obeys_from_spec() -> bool {
        true
    }

    open spec fn from_spec(value: Square) -> MonoBitBoard {
        MonoBitBoard::from_cell(value.bit())
    }
}

impl From<Square> for BitBoard {
    /// The board on which the given square alone is occupied.
    fn from(value: Square) -> (board: BitBoard) {
        value.as_bitboard()
    }
}

impl FromSpecImpl<Square> for BitBoard {
    open spec fn obeys_from_spec() -> bool {
        true
    }

    open spec fn from_spec(value: Square) -> BitBoard {
        BitBoard(value.bit())
    }
}

impl TryFrom<u8> for Square {
    type Error = NotationError;

    /// Converts a number to its square representation.
    fn try_from(value: u8) -> (square: Result<Self, NotationError>) {
        match value {
            1 => Ok(Square::One),
            2 => Ok(Square::Two),
            3 => Ok(Square::Three),
            4 => Ok(Square::Four),
            5 => Ok(Square::Five),
            6 => Ok(Square::Six),
            7 => Ok(Square::Seven),
            8 => Ok(Square::Eight),
            9 => Ok(Square::Nine),
            10 => Ok(Square::Ten),
            11 => Ok(Square::Eleven),
            12 => Ok(Square::Twelve),
            13 => Ok(Square::Thirteen),
            14 => Ok(Square::Fourteen),
            15 => Ok(Square::Fifteen),
            16 => Ok(Square::Sixteen),
            17 => Ok(Square::Seventeen),
            18 => Ok(Square::Eighteen),
            19 => Ok(Square::Nineteen),
            20 => Ok(Square::Twenty),
            21 => Ok(Square::TwentyOne),
            22 => Ok(Square::TwentyTwo),
            23 => Ok(Square::TwentyThree),
            24 => Ok(Square::TwentyFour),
            25 => Ok(Square::TwentyFive),
            26 => Ok(Square::TwentySix),
            27 => Ok(Square::TwentySeven),
            28 => Ok(Square::TwentyEight),
            29 => Ok(Square::TwentyNine),
            30 => Ok(Square::Thirty),
            31 => Ok(Square::ThirtyOne),
            32 => Ok(Square::ThirtyTwo),
            _ => Err(NotationError::OutOfRange),
        }
    }
}

impl TryFromSpecImpl<u8> for Square {
    open spec fn obeys_try_from_spec() -> bool {
        true
    }

    open spec fn try_from_spec(value: u8) -> Result<Self, NotationError> {
        Square::from_number(value)
    }
}

impl TryFrom<&str> for Square {
    type Error = NotationError;

    /// Converts a number in string format to its square representation
    fn try_from(text: &str) -> (square: Result<Self, NotationError>) {
        match parse_u8(text) {
            Some(value) => Square::try_from(value),
            None => match holds_decimal(text) {
                true => Err(NotationError::OutOfRange),
                false => Err(NotationError::InvalidFormat),
            },
        }
    }
}

impl TryFromSpecImpl<&str> for Square {
    open spec fn obeys_try_from_spec() -> bool {
        true
    }

    open spec fn try_from_spec(text: &str) -> Result<Self, NotationError> {
        parse_square(text@)
    }
}

impl TryFrom<MonoBitBoard> for Square {
    type Error = SquareConversionError;

    /// Converts the given [MonoBitBoard] to a [Square] instance. Results in an error when
    /// the given bitboard did not represent one of the 32 classical checker squares.
    fn try_from(bitboard: MonoBitBoard) -> (square: Result<Self, SquareConversionError>) {
        let squares = Square::iter();
        let mut i: usize = 0;
        while i < squares.len()
            invariant
                squares@ == Square::all(),
                i <= 32,
                forall|j: int| 0 <= j < i ==> (#[trigger] squares[j]).bit() != bitboard@,
            decreases squares.len() - i,
        {
            let square = squares[i];
            proof {
                MonoBitBoard::lemma_from_cell();
            }
            if MonoBitBoard::from(square) == bitboard {
                proof {
                    lemma_square_round_trip(square);
                }
                return Ok(square);
            }
            i = i + 1;
        }
        proof {
            assert forall|square: Square| square.bit() != bitboard@ by {
                lemma_square_round_trip(square);
                assert(squares[square.number() - 1] == square);
            }
        }
        Err(SquareConversionError)
    }
}

impl TryFromSpecImpl<MonoBitBoard> for Square {
    open spec fn obeys_try_from_spec() -> bool {
        true
    }

    open spec fn try_from_spec(bitboard: MonoBitBoard) -> Result<Self, SquareConversionError> {
        Square::of_cell(bitboard@)
    }
}

} // verus!
