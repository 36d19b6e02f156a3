use vstd::arithmetic::power2::lemma_pow2_strictly_increases;
use vstd::arithmetic::power2::pow2;
use vstd::bits::lemma_u64_pow2_no_overflow;
use vstd::bits::lemma_u64_shl_is_mul;
use vstd::prelude::*;
use vstd::std_specs::cmp::PartialEqSpecImpl;
use vstd::std_specs::convert::TryFromSpecImpl;
use vstd::std_specs::ops::BitAndSpecImpl;
use vstd::std_specs::ops::BitOrSpecImpl;
use vstd::std_specs::ops::BitXorSpecImpl;

verus! {

/// Represents all black squares on a checkers board.
pub const BLACK_SQUARES: u64 = 0x5555555555555555;

/// Represents all white squares on a checkers board.
pub const WHITE_SQUARES: u64 = 0xAAAAAAAAAAAAAAAA;

/// Represents all corner squares on a checkers board.
pub const CORNER_SQUARES: u64 = 0x8100000000000081;

/// Represents all left squares on a checkers board.
pub const LEFT_SQUARES: u64 = 0x8080808080808080;

/// Represents all right squares on a checkers board.
pub const RIGHT_SQUARES: u64 = 0x0101010101010101;

/// Represents all left and right squares on a checkers board.
pub const LEFT_AND_RIGHT_SQUARES: u64 = 0x8181818181818181;

/// Represents all top squares on a checkers board.
pub const TOP_SQUARES: u64 = 0xFF00000000000000;

/// Represents all bottom squares on a checkers board.
pub const BOTTOM_SQUARES: u64 = 0x00000000000000FF;

/// Represents all top and bottom squares on a checkers board.
pub const TOP_AND_BOTTOM_SQUARES: u64 = 0xFF000000000000FF;

/// The board on which exactly the cell with the given index is occupied. Cells are indexed
/// from 0 to 63; cell `8 * row + column` lies in the given row and column of the 8x8 grid.
pub open spec fn cell_bit(index: nat) -> u64
    recommends
        index < 64,
{
    1u64 << (index as u64)
}

/// Whether the cell with the given index is occupied on the board `value`.
pub open spec fn has_cell(value: u64, index: nat) -> bool {
    index < 64 && value & cell_bit(index) != 0
}

/// Whether exactly one cell is occupied on the board `value`.
pub open spec fn is_single_cell(value: u64) -> bool {
    exists|index: nat| index < 64 && value == #[trigger] cell_bit(index)
}

/// The index of the cell that is occupied on a board of a single cell.
pub open spec fn index_of(cell: u64) -> nat
    recommends
        is_single_cell(cell),
{
    choose|index: nat| index < 64 && cell == #[trigger] cell_bit(index)
}

/// Each of the 64 cells has a board of its own: the boards of two cells differ, and none of
/// them is empty.
pub proof fn lemma_index_of(index: nat)
    requires
        index < 64,
    ensures
        index_of(cell_bit(index)) == index,
        cell_bit(index) != 0,
        is_single_cell(cell_bit(index)),
{
    let other = index_of(cell_bit(index));
    let a = index as u64;
    let b = other as u64;
    assert(a < 64 && b < 64 && 1u64 << a == 1u64 << b ==> a == b && 1u64 << a != 0)
        by (bit_vector);
}

/// The set of the indexes of the cells that are occupied on the board `value`.
pub open spec fn occupied_set(value: u64) -> Set<nat> {
    Set::new(|index: nat| has_cell(value, index))
}

/// The indexes, in ascending order, of the occupied cells of `value` from index `from` upwards.
pub open spec fn occupied_from(value: u64, from: nat) -> Seq<nat>
    decreases 64 - from,
{
    if from >= 64 {
        Seq::empty()
    } else if has_cell(value, from) {
        seq![from] + occupied_from(value, from + 1)
    } else {
        occupied_from(value, from + 1)
    }
}

/// The occupied cells of `value` from index `from` upwards, each as a board of its own, in
/// ascending order of their indexes.
pub open spec fn cells_from(value: u64, from: nat) -> Seq<u64> {
    occupied_from(value, from).map_values(|index: nat| cell_bit(index))
}

/// Every occupied cell of `value`, each as a board of its own, in ascending order.
pub open spec fn cells(value: u64) -> Seq<u64> {
    cells_from(value, 0)
}

/// Whether `value` is a power of two.
pub open spec fn is_power_of_two(value: u64) -> bool {
    exists|exponent: nat| value == #[trigger] pow2(exponent)
}

/// The values that hold a single cell are the powers of two: the cell with index `k` is the
/// value two to the `k`.
pub proof fn lemma_single_cell_is_power_of_two(value: u64)
    ensures
        is_single_cell(value) <==> is_power_of_two(value),
        forall|index: nat| index < 64 ==> #[trigger] cell_bit(index) == pow2(index),
{
    assert forall|index: nat| index < 64 implies #[trigger] cell_bit(index) == pow2(index) by {
        lemma_u64_pow2_no_overflow(index);
        lemma_u64_shl_is_mul(1, index as u64);
    }
    if is_power_of_two(value) {
        let exponent = choose|exponent: nat| value == #[trigger] pow2(exponent);
        if exponent >= 64 {
            lemma_u64_pow2_no_overflow(63);
            if exponent > 64 {
                lemma_pow2_strictly_increases(64, exponent);
            }
            lemma_pow2_strictly_increases(63, 64);
            vstd::arithmetic::power2::lemma_pow2_unfold(64);
            vstd::arithmetic::power2::lemma2_to64_rest();
        }
        assert(value == cell_bit(exponent));
    }
    if is_single_cell(value) {
        let index = choose|index: nat| index < 64 && value == #[trigger] cell_bit(index);
        assert(value == pow2(index));
    }
}

/// And, or and xor on boards are intersection, union and symmetric difference on their sets
/// of occupied cells.
pub proof fn lemma_algebra_on_cells(a: u64, b: u64, index: nat)
    ensures
        has_cell(a & b, index) <==> has_cell(a, index) && has_cell(b, index),
        has_cell(a | b, index) <==> has_cell(a, index) || has_cell(b, index),
        has_cell(a ^ b, index) <==> (has_cell(a, index) != has_cell(b, index)),
{
    let i = index as u64;
    assert(i < 64 ==> {
        &&& ((a & b) & (1u64 << i) != 0) == (a & (1u64 << i) != 0 && b & (1u64 << i) != 0)
        &&& ((a | b) & (1u64 << i) != 0) == (a & (1u64 << i) != 0 || b & (1u64 << i) != 0)
        &&& ((a ^ b) & (1u64 << i) != 0) == ((a & (1u64 << i) != 0) != (b & (1u64 << i) != 0))
    }) by (bit_vector);
}

/// What [occupied_from] lists: every occupied cell from `from` upwards and no other, in
/// strictly ascending order.
pub proof fn lemma_occupied_from(value: u64, from: nat)
    ensures
        occupied_from(value, from).len() + from <= 64 || occupied_from(value, from).len() == 0,
        forall|k: int|
            0 <= k < occupied_from(value, from).len() ==> from <= #[trigger] occupied_from(
                value,
                from,
            )[k] && has_cell(value, occupied_from(value, from)[k]),
        forall|j: int, k: int|
            0 <= j < k < occupied_from(value, from).len() ==> #[trigger] occupied_from(
                value,
                from,
            )[j] < #[trigger] occupied_from(value, from)[k],
        forall|index: nat|
            from <= index && has_cell(value, index) ==> #[trigger] occupied_from(
                value,
                from,
            ).contains(index),
    decreases 64 - from,
{
    let here = occupied_from(value, from);
    if from < 64 {
        lemma_occupied_from(value, from + 1);
        let rest = occupied_from(value, from + 1);
        if has_cell(value, from) {
            assert(here == seq![from] + rest);
            assert forall|index: nat| from <= index && has_cell(value, index) implies here.contains(
                index,
            ) by {
                if index == from {
                    assert(here[0] == index);
                } else {
                    assert(rest.contains(index));
                    let k = choose|k: int| 0 <= k < rest.len() && rest[k] == index;
                    assert(here[k + 1] == index);
                }
            }
        } else {
            assert forall|index: nat| from <= index && has_cell(value, index) implies here.contains(
                index,
            ) by {
                assert(rest.contains(index));
            }
        }
    }
}

/// A board yields as many cells as it has bits set, each of them one of its own cells, and
/// yields them in strictly ascending order of their indexes.
pub proof fn lemma_cells_counted_and_ascending(value: u64)
    ensures
        occupied_set(value).finite(),
        cells(value).len() == occupied_set(value).len(),
        cells(value).len() <= 64,
        forall|k: int|
            0 <= k < cells(value).len() ==> #[trigger] cells(value)[k] == cell_bit(
                occupied_from(value, 0)[k],
            ) && has_cell(value, occupied_from(value, 0)[k]),
        forall|j: int, k: int|
            0 <= j < k < cells(value).len() ==> #[trigger] occupied_from(value, 0)[j]
                < #[trigger] occupied_from(value, 0)[k],
{
    let indexes = occupied_from(value, 0);
    lemma_occupied_from(value, 0);
    assert(indexes.no_duplicates());
    assert(indexes.to_set() =~= occupied_set(value)) by {
        assert forall|index: nat| indexes.to_set().contains(index) implies occupied_set(
            value,
        ).contains(index) by {
            let k = choose|k: int| 0 <= k < indexes.len() && indexes[k] == index;
            assert(has_cell(value, indexes[k]));
        }
    }
    indexes.unique_seq_to_set();
}

/// Which cells a board yields: the boards of a single cell that it overlaps with, and no
/// others. The empty board yields none.
pub proof fn lemma_cells_membership(value: u64, cell: u64)
    ensures
        cells(value).contains(cell) <==> is_single_cell(cell) && value & cell != 0,
        value == 0 ==> cells(value).len() == 0,
{
    let indexes = occupied_from(value, 0);
    lemma_occupied_from(value, 0);
    if cells(value).contains(cell) {
        let k = choose|k: int| 0 <= k < cells(value).len() && cells(value)[k] == cell;
        assert(cell == cell_bit(indexes[k]));
        assert(has_cell(value, indexes[k]));
    }
    if is_single_cell(cell) && value & cell != 0 {
        let index = index_of(cell);
        assert(has_cell(value, index));
        assert(indexes.contains(index));
        let k = choose|k: int| 0 <= k < indexes.len() && indexes[k] == index;
        assert(cells(value)[k] == cell);
    }
    if value == 0 && cells(value).len() > 0 {
        let i = indexes[0] as u64;
        assert(has_cell(value, indexes[0]));
        assert(0u64 & (1u64 << i) == 0) by (bit_vector);
    }
}

/// Bit representation of a checkers board. Backed by 64 bits; a bitboard uses bits to represent
/// each square on the board. Multiple bitboards are generally used to track different
/// information. These boards can then make use of bit operations to quickly determine the full
/// context of the board.
#[derive(Copy, Clone, Debug)]
pub struct BitBoard(pub u64);

impl View for BitBoard {
    type V = u64;

    open spec fn view(&self) -> u64 {
        self.0
    }
}

impl BitBoard {
    /// Constructs a new [BitBoard] instance with the given value.
    pub fn new(value: u64) -> (board: Self)
        ensures
            board@ == value,
    {
        Self(value)
    }

    /// The 64 bits that back this bitboard.
    pub fn value(&self) -> (value: u64)
        ensures
            value == self@,
    {
        self.0
    }

    /// Calculates whether this bitboard is empty. A bitboard is considered empty if no
    /// bits have the value of 1. In other words, the value is 0.
    pub fn empty(&self) -> (is_empty: bool)
        ensures
            is_empty == (self@ == 0),
    {
        self.0 == 0
    }

    /// Returns a [CellIter] that will be capable of iterating over every active bit on this
    /// board, in ascending order.
    pub fn used_cells(&self) -> (iter: CellIter)
        ensures
            iter.remaining() == cells(self@),
    {
        CellIter::new(*self)
    }

    /// Calculates whether the given [MonoBitBoard] overlaps with this bitboard instance.
    /// A bitboard overlaps with another when they have at least one bit in common.
    pub fn contains(&self, bitboard: MonoBitBoard) -> (overlaps: bool)
        ensures
            overlaps == (self@ & bitboard@ != 0),
    {
        !(*self & bitboard).empty()
    }
}

impl core::ops::BitAnd for BitBoard {
    type Output = BitBoard;

    fn bitand(self, rhs: Self) -> (out: BitBoard) {
        BitBoard(self.0 & rhs.0)
    }
}

impl BitAndSpecImpl for BitBoard {
    open spec fn obeys_bitand_spec() -> bool {
        true
    }

    open spec fn bitand_req(self, rhs: Self) -> bool {
        true
    }

    open spec fn bitand_spec(self, rhs: Self) -> BitBoard {
        BitBoard(self@ & rhs@)
    }
}

impl core::ops::BitOr for BitBoard {
    type Output = BitBoard;

    fn bitor(self, rhs: Self) -> (out: BitBoard) {
        BitBoard(self.0 | rhs.0)
    }
}

impl BitOrSpecImpl for BitBoard {
    open spec fn obeys_bitor_spec() -> bool {
        true
    }

    open spec fn bitor_req(self, rhs: Self) -> bool {
        true
    }

    open spec fn bitor_spec(self, rhs: Self) -> BitBoard {
        BitBoard(self@ | rhs@)
    }
}

impl core::ops::BitXor for BitBoard {
    type Output = BitBoard;

    fn bitxor(self, rhs: Self) -> (out: BitBoard) {
        BitBoard(self.0 ^ rhs.0)
    }
}

impl BitXorSpecImpl for BitBoard {
    open spec fn obeys_bitxor_spec() -> bool {
        true
    }

    open spec fn bitxor_req(self, rhs: Self) -> bool {
        true
    }

    open spec fn bitxor_spec(self, rhs: Self) -> BitBoard {
        BitBoard(self@ ^ rhs@)
    }
}

impl core::ops::BitXorAssign for BitBoard {
    fn bitxor_assign(&mut self, rhs: Self)
        ensures
            final(self)@ == old(self)@ ^ rhs@,
    {
        self.0 = self.0 ^ rhs.0;
    }
}

impl core::ops::BitAnd<MonoBitBoard> for BitBoard {
    type Output = BitBoard;

    fn bitand(self, rhs: MonoBitBoard) -> (out: BitBoard) {
        BitBoard(self.0 & rhs.0)
    }
}

impl BitAndSpecImpl<MonoBitBoard> for BitBoard {
    open spec fn obeys_bitand_spec() -> bool {
        true
    }

    open spec fn bitand_req(self, rhs: MonoBitBoard) -> bool {
        true
    }

    open spec fn bitand_spec(self, rhs: MonoBitBoard) -> BitBoard {
        BitBoard(self@ & rhs@)
    }
}

impl core::ops::BitOr<MonoBitBoard> for BitBoard {
    type Output = BitBoard;

    fn bitor(self, rhs: MonoBitBoard) -> (out: BitBoard) {
        BitBoard(self.0 | rhs.0)
    }
}

impl BitOrSpecImpl<MonoBitBoard> for BitBoard {
    open spec fn obeys_bitor_spec() -> bool {
        true
    }

    open spec fn bitor_req(self, rhs: MonoBitBoard) -> bool {
        true
    }

    open spec fn bitor_spec(self, rhs: MonoBitBoard) -> BitBoard {
        BitBoard(self@ | rhs@)
    }
}

impl PartialEq for BitBoard {
    fn eq(&self, other: &Self) -> (equal: bool) {
        self.0 == other.0
    }
}

impl PartialEqSpecImpl for BitBoard {
    open spec fn obeys_eq_spec() -> bool {
        true
    }

    open spec fn eq_spec(&self, other: &Self) -> bool {
        self@ == other@
    }
}

impl PartialEq<u64> for BitBoard {
    fn eq(&self, other: &u64) -> (equal: bool) {
        self.0 == *other
    }
}

impl PartialEqSpecImpl<u64> for BitBoard {
    open spec fn obeys_eq_spec() -> bool {
        true
    }

    open spec fn eq_spec(&self, other: &u64) -> bool {
        self@ == *other
    }
}

impl PartialEq<MonoBitBoard> for BitBoard {
    fn eq(&self, other: &MonoBitBoard) -> (equal: bool) {
        self.0 == other.0
    }
}

impl PartialEqSpecImpl<MonoBitBoard> for BitBoard {
    open spec fn obeys_eq_spec() -> bool {
        true
    }

    open spec fn eq_spec(&self, other: &MonoBitBoard) -> bool {
        self@ == other@
    }
}

/// The error of [MonoBitBoard::new]: a [MonoBitBoard] can only be constructed with a value
/// that contains a single bit with the value of 1.
#[derive(Copy, Clone, Debug, PartialEq, Eq, Structural)]
pub struct MonoBitBoardError;

/// Special type of bitboard that enforces that only a single bit has the value of 1.
/// This can be useful when representing a piece or single cell using bitboard and type safety.
#[derive(Copy, Clone, Debug)]
pub struct MonoBitBoard(u64);

impl View for MonoBitBoard {
    type V = u64;

    closed spec fn view(&self) -> u64 {
        self.0
    }
}

impl MonoBitBoard {
    #[verifier::type_invariant]
    spec fn single(self) -> bool {
        is_single_cell(self.0)
    }

    /// The bitboard that holds the single cell `value`.
    pub closed spec fn from_cell(value: u64) -> MonoBitBoard {
        MonoBitBoard(value)
    }

    /// A bitboard is what its value is: [MonoBitBoard::from_cell] has the value it was given,
    /// and two bitboards of one value are the same.
    pub proof fn lemma_from_cell()
        ensures
            forall|value: u64| (#[trigger] Self::from_cell(value))@ == value,
            forall|a: MonoBitBoard, b: MonoBitBoard| a@ == b@ ==> a == b,
    {
    }

    /// The bitboard of the given value, where that value holds a single cell.
    pub open spec fn checked(value: u64) -> Result<MonoBitBoard, MonoBitBoardError> {
        if is_single_cell(value) {
            Ok(Self::from_cell(value))
        } else {
            Err(MonoBitBoardError)
        }
    }

    /// Attempt to create a [MonoBitBoard] with the given value.
    pub fn new(value: u64) -> (result: Result<Self, MonoBitBoardError>)
        ensures
            result == Self::checked(value),
            result is Ok <==> is_single_cell(value),
            result matches Ok(cell) ==> cell@ == value,
    {
        let is_single_piece = value != 0 && (value & (value - 1)) == 0;
        proof {
            lemma_single_cell_test(value);
        }
        match is_single_piece {
            true => Ok(MonoBitBoard(value)),
            false => Err(MonoBitBoardError),
        }
    }

    /// The 64 bits that back this bitboard, of which exactly one is set.
    pub fn value(&self) -> (value: u64)
        ensures
            value == self@,
            is_single_cell(value),
    {
        proof {
            use_type_invariant(self);
        }
        self.0
    }
}

/// A value holds a single cell exactly when it is not zero and shares no bit with its
/// predecessor.
pub proof fn lemma_single_cell_test(value: u64)
    ensures
        is_single_cell(value) <==> value != 0 && value & ((value - 1) as u64) == 0,
{
    if is_single_cell(value) {
        let index = choose|index: nat| index < 64 && value == #[trigger] cell_bit(index);
        let i = index as u64;
        assert(i < 64 ==> (1u64 << i) != 0 && (1u64 << i) & (((1u64 << i) - 1) as u64) == 0)
            by (bit_vector);
    }
    if value != 0 && value & ((value - 1) as u64) == 0 {
        lemma_lowest_cell(value, 0);
    }
}

proof fn lemma_lowest_cell(value: u64, from: nat)
    requires
        from < 64,
        value != 0,
        value & ((value - 1) as u64) == 0,
        from == 0 || (value >> (from as u64)) << (from as u64) == value,
    ensures
        is_single_cell(value),
    decreases 64 - from,
{
    let f = from as u64;
    assert(f < 64 && value != 0 && value & ((value - 1) as u64) == 0 && (f == 0 || (value >> f) << f
        == value) ==> {
        &&& value & (1u64 << f) != 0 ==> value == 1u64 << f
        &&& value & (1u64 << f) == 0 ==> f < 63 && (value >> ((f + 1) as u64)) << ((f + 1) as u64)
            == value
    }) by (bit_vector);
    if value & (1u64 << f) != 0 {
        assert(value == cell_bit(from));
    } else {
        lemma_lowest_cell(value, from + 1);
    }
}

impl core::ops::BitAnd for MonoBitBoard {
    type Output = BitBoard;

    fn bitand(self, rhs: Self) -> (out: BitBoard) {
        BitBoard(self.0 & rhs.0)
    }
}

impl BitAndSpecImpl for MonoBitBoard {
    open spec fn obeys_bitand_spec() -> bool {
        true
    }

    open spec fn bitand_req(self, rhs: Self) -> bool {
        true
    }

    open spec fn bitand_spec(self, rhs: Self) -> BitBoard {
        BitBoard(self@ & rhs@)
    }
}

impl core::ops::BitOr for MonoBitBoard {
    type Output = BitBoard;

    fn bitor(self, rhs: Self) -> (out: BitBoard) {
        BitBoard(self.0 | rhs.0)
    }
}

impl BitOrSpecImpl for MonoBitBoard {
    open spec fn obeys_bitor_spec() -> bool {
        true
    }

    open spec fn bitor_req(self, rhs: Self) -> bool {
        true
    }

    open spec fn bitor_spec(self, rhs: Self) -> BitBoard {
        BitBoard(self@ | rhs@)
    }
}

impl TryFrom<BitBoard> for MonoBitBoard {
    type Error = MonoBitBoardError;

    /// Attempts to convert a [BitBoard] into a [MonoBitBoard]
    fn try_from(value: BitBoard) -> (result: Result<Self, MonoBitBoardError>) {
        MonoBitBoard::new(value.0)
    }
}

impl TryFromSpecImpl<BitBoard> for MonoBitBoard {
    open spec fn obeys_try_from_spec() -> bool {
        true
    }

    open spec fn try_from_spec(value: BitBoard) -> Result<Self, MonoBitBoardError> {
        MonoBitBoard::checked(value@)
    }
}

impl PartialEq for MonoBitBoard {
    fn eq(&self, other: &Self) -> (equal: bool) {
        self.0 == other.0
    }
}

impl PartialEqSpecImpl for MonoBitBoard {
    open spec fn obeys_eq_spec() -> bool {
        true
    }

    open spec fn eq_spec(&self, other: &Self) -> bool {
        self@ == other@
    }
}

impl PartialEq<u64> for MonoBitBoard {
    fn eq(&self, other: &u64) -> (equal: bool) {
        self.0 == *other
    }
}

impl PartialEqSpecImpl<u64> for MonoBitBoard {
    open spec fn obeys_eq_spec() -> bool {
        true
    }

    open spec fn eq_spec(&self, other: &u64) -> bool {
        self@ == *other
    }
}

impl PartialEq<BitBoard> for MonoBitBoard {
    fn eq(&self, other: &BitBoard) -> (equal: bool) {
        self.0 == other.0
    }
}

impl PartialEqSpecImpl<BitBoard> for MonoBitBoard {
    open spec fn obeys_eq_spec() -> bool {
        true
    }

    open spec fn eq_spec(&self, other: &BitBoard) -> bool {
        self@ == other@
    }
}

/// Iterator capable of producing a [MonoBitBoard] for each active cell of a given [BitBoard].
pub struct CellIter {
    bitboard: BitBoard,
    index: u64,
}

impl CellIter {
    /// The cells that this iterator has still to produce, in the order in which they come.
    pub closed spec fn remaining(&self) -> Seq<u64> {
        cells_from(self.bitboard@, self.index as nat)
    }

    /// The views of the given cells.
    pub open spec fn views(cells: Seq<MonoBitBoard>) -> Seq<u64> {
        cells.map_values(|cell: MonoBitBoard| cell@)
    }

    /// Creates a new iterator instance with the given [BitBoard]
    pub fn new(bitboard: BitBoard) -> (iter: Self)
        ensures
            iter.remaining() == cells(bitboard@),
    {
        CellIter { bitboard, index: 0 }
    }

    /// Produces the next active cell, the one with the lowest index among those that are left.
    pub fn next(&mut self) -> (cell: Option<MonoBitBoard>)
        ensures
            match cell {
                Some(c) => {
                    &&& old(self).remaining().len() > 0
                    &&& c@ == old(self).remaining()[0]
                    &&& final(self).remaining() == old(self).remaining().drop_first()
                },
                None => old(self).remaining().len() == 0 && final(self).remaining().len() == 0,
            },
    {
        while self.index < 64
            invariant
                self.remaining() == old(self).remaining(),
            decreases 64 - self.index,
        {
            let ghost before = self.index as nat;
            let bit = 1u64 << self.index;
            self.index = self.index + 1;
            assert(bit == cell_bit(before));
            if self.bitboard.0 & bit != 0 {
                proof {
                    let rest = occupied_from(self.bitboard@, before + 1);
                    assert(occupied_from(self.bitboard@, before) == seq![before] + rest);
                    assert(self.remaining() =~= old(self).remaining().drop_first());
                }
                return Some(MonoBitBoard(bit));
            }
        }
        None
    }

    /// Produces every active cell that is left, in ascending order.
    pub fn collect(self) -> (cells: Vec<MonoBitBoard>)
        ensures
            Self::views(cells@) == self.remaining(),
    {
        let mut iter = self;
        let mut cells: Vec<MonoBitBoard> = Vec::new();
        loop
            invariant
                Self::views(cells@) + iter.remaining() == self.remaining(),
            ensures
                Self::views(cells@) == self.remaining(),
            decreases iter.remaining().len(),
        {
            let ghost before = iter.remaining();
            let ghost taken = Self::views(cells@);
            match iter.next() {
                Some(cell) => {
                    cells.push(cell);
                    assert(Self::views(cells@) =~= taken.push(cell@));
                    assert(Self::views(cells@) + iter.remaining() =~= taken + before);
                },
                None => {
                    assert(Self::views(cells@) =~= Self::views(cells@) + before);
                    break;
                },
            }
        }
        cells
    }

    /// Counts the active cells that are left.
    pub fn count(self) -> (count: usize)
        ensures
            count == self.remaining().len(),
    {
        let cells = self.collect();
        assert(Self::views(cells@).len() == cells@.len());
        cells.len()
    }
}

} // verus!
