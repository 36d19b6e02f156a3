use crate::position::Move;
use crate::position::MoveView;
use crate::position::NotationError;
use crate::position::parse_move;
use crate::position::views;
use vstd::prelude::*;
use vstd::std_specs::convert::TryFromSpecImpl;
use vstd::std_specs::convert::TryIntoSpec;
use vstd::string::StrSliceExecFns;

verus! {

/// The length of the part of `text` before its first comma: the length of `text` where it
/// holds no comma.
pub open spec fn first_comma(text: Seq<char>) -> nat
    decreases text.len(),
{
    if text.len() == 0 || text[0] == ',' {
        0
    } else {
        1 + first_comma(text.drop_first())
    }
}

/// The moves that `text` denotes: `text` is one move of the notation or several, with a comma
/// between each two. Where a part is no move, the error is that of the first such part.
pub open spec fn parse_turn(text: Seq<char>) -> Result<Seq<MoveView>, NotationError>
    decreases text.len(),
{
    let end = first_comma(text) as int;
    match parse_move(text.subrange(0, end)) {
        Err(error) => Err(error),
        Ok(m) => if end >= text.len() {
            Ok(seq![m])
        } else {
            match parse_turn(text.subrange(end + 1, text.len() as int)) {
                Err(error) => Err(error),
                Ok(rest) => Ok(seq![m] + rest),
            }
        },
    }
}

/// The moves `before`, and after them the moves of `after`, where there are any.
pub open spec fn followed_by(before: Seq<MoveView>, after: Result<Seq<MoveView>, NotationError>)
    -> Result<Seq<MoveView>, NotationError> {
    match after {
        Ok(rest) => Ok(before + rest),
        Err(error) => Err(error),
    }
}

/// Where the first comma of a text stands: at the first index that holds one.
pub proof fn lemma_first_comma(text: Seq<char>, at: nat)
    requires
        at <= text.len(),
        at < text.len() ==> text[at as int] == ',',
        forall|i: int| 0 <= i < at ==> text[i] != ',',
    ensures
        first_comma(text) == at,
    decreases at,
{
    if at > 0 {
        lemma_first_comma(text.drop_first(), (at - 1) as nat);
    }
}

/// Represents a turn on a board. Turns are simply an abstraction around a collection of moves.
/// Multiple moves are allowed per turn due to checkers allowing multiple jumps per turn.
pub struct Turn {
    moves: Vec<Move>,
}

impl View for Turn {
    type V = Seq<MoveView>;

    closed spec fn view(&self) -> Seq<MoveView> {
        views(self.moves@)
    }
}

impl Turn {
    #[verifier::type_invariant]
    spec fn holds_a_move(self) -> bool {
        self.moves@.len() >= 1
    }

    /// Construct a turn from items that can be converted into [Move] instances: the moves
    /// that the items convert into, in their order, and the error of the first item that
    /// does not convert.
    pub fn new<T: TryInto<Move>>(moves: Vec<T>) -> (turn: Result<Self, T::Error>)
        requires
            moves@.len() >= 1,
        ensures
            turn matches Ok(made) ==> made@.len() == moves@.len(),
            T::obeys_try_into_spec() ==> match turn {
                Ok(turn) => {
                    &&& turn@.len() == moves@.len()
                    &&& forall|i: int|
                        0 <= i < moves@.len() ==> (#[trigger] moves@[i].try_into_spec()
                            matches Ok(m) && m@ == turn@[i])
                },
                Err(error) => exists|k: int|
                    {
                        &&& 0 <= k < moves@.len()
                        &&& #[trigger] moves@[k].try_into_spec() == Err::<Move, T::Error>(error)
                        &&& forall|i: int| 0 <= i < k ==> (#[trigger] moves@[i].try_into_spec()) is Ok
                    },
            },
    {
        let mut rest = moves;
        let mut made: Vec<Move> = Vec::new();
        while rest.len() > 0
            invariant
                made@.len() + rest@.len() == moves@.len(),
                rest@ == moves@.skip(made@.len() as int),
                T::obeys_try_into_spec() ==> forall|i: int|
                    0 <= i < made@.len() ==> (#[trigger] moves@[i].try_into_spec() matches Ok(m)
                        && m == made@[i]),
            decreases rest@.len(),
        {
            let ghost k = made@.len() as int;
            let item = rest.remove(0);
            assert(item == moves@[k]);
            assert(rest@ =~= moves@.skip(k + 1));
            match item.try_into() {
                Ok(m) => made.push(m),
                Err(error) => {
                    assert(T::obeys_try_into_spec() ==> moves@[k].try_into_spec() == Err::<
                        Move,
                        T::Error,
                    >(error));
                    return Err(error);
                },
            }
        }
        let turn = Turn { moves: made };
        assert(T::obeys_try_into_spec() ==> forall|i: int|
            0 <= i < moves@.len() ==> (#[trigger] moves@[i].try_into_spec() matches Ok(m) && m@
                == turn@[i]));
        Ok(turn)
    }

    /// Construct a turn from moves: the given moves, in their order.
    pub fn from_moves(moves: Vec<Move>) -> (turn: Self)
        requires
            moves@.len() >= 1,
        ensures
            turn@ == views(moves@),
    {
        Turn { moves }
    }

    /// Attempts tp create a [Turn] instance using checkers notation.
    pub fn from_notation(text: &str) -> (parsed: Result<Self, NotationError>)
        ensures
            match parsed {
                Ok(turn) => parse_turn(text@) == Ok::<Seq<MoveView>, NotationError>(turn@),
                Err(error) => parse_turn(text@) == Err::<Seq<MoveView>, NotationError>(error),
            },
    {
        let len = text.unicode_len();
        let mut moves: Vec<Move> = Vec::new();
        let mut start: usize = 0;
        let mut at: usize = 0;
        assert(text@.subrange(0, len as int) =~= text@);
        assert(views(moves@) =~= Seq::<MoveView>::empty());
        assert(parse_turn(text@) == followed_by(views(moves@), parse_turn(text@))) by {
            match parse_turn(text@) {
                Ok(rest) => {
                    assert(views(moves@) + rest =~= rest);
                },
                Err(_) => {},
            }
        }
        loop
            invariant
                len == text@.len(),
                start <= at <= len,
                forall|i: int| start <= i < at ==> text@[i] != ',',
                parse_turn(text@) == followed_by(
                    views(moves@),
                    parse_turn(text@.subrange(start as int, len as int)),
                ),
            decreases len - at,
        {
            let ghost tail = text@.subrange(start as int, len as int);
            let ghost taken = views(moves@);
            if at == len || text.get_char(at) == ',' {
                let segment = text.substring_char(start, at);
                proof {
                    lemma_first_comma(tail, (at - start) as nat);
                    assert(tail.subrange(0, at - start) =~= segment@);
                }
                match Move::from_notation(segment) {
                    Ok(m) => {
                        moves.push(m);
                        assert(views(moves@) =~= taken + seq![m@]);
                    },
                    Err(error) => {
                        return Err(error);
                    },
                }
                if at == len {
                    assert(taken + seq![moves@.last()@] =~= views(moves@));
                    return Ok(Turn { moves });
                }
                proof {
                    let next = text@.subrange(at + 1, len as int);
                    assert(tail.subrange(at - start + 1, tail.len() as int) =~= next);
                    match parse_turn(next) {
                        Ok(rest) => {
                            assert(taken + (seq![moves@.last()@] + rest) =~= views(moves@) + rest);
                        },
                        Err(_) => {},
                    }
                }
                start = at + 1;
            }
            at = at + 1;
        }
    }

    /// Returns a reference to all moves that represent this turn in the order they should be
    /// made.
    pub fn moves(&self) -> (moves: &Vec<Move>)
        ensures
            views(moves@) == self@,
            moves@.len() >= 1,
    {
        proof {
            use_type_invariant(self);
        }
        &self.moves
    }
}

/// Allows strings of checkers notation to be easily converted into turn instances.
impl TryFrom<&str> for Turn {
    type Error = NotationError;

    fn try_from(value: &str) -> (parsed: Result<Self, NotationError>)
        ensures
            match parsed {
                Ok(turn) => parse_turn(value@) == Ok::<Seq<MoveView>, NotationError>(turn@),
                Err(error) => parse_turn(value@) == Err::<Seq<MoveView>, NotationError>(error),
            },
    {
        Turn::from_notation(value)
    }
}

/// A turn is known by its view alone, so what the conversion gives is stated on `try_from`
/// itself, over the view, and not through a turn in a specification.
impl TryFromSpecImpl<&str> for Turn {
    open spec fn obeys_try_from_spec() -> bool {
        false
    }

    open spec fn try_from_spec(value: &str) -> Result<Self, NotationError> {
        arbitrary()
    }
}

} // verus!
