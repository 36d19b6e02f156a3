use vstd::prelude::*;
use vstd::string::StringExecFns;
use vstd::string::StrSliceExecFns;

verus! {

/// Whether `c` is one of the ten decimal digits.
pub open spec fn is_digit(c: char) -> bool {
    '0' <= c <= '9'
}

/// The value of the decimal digit `c`.
pub open spec fn digit_value(c: char) -> nat
    recommends
        is_digit(c),
{
    (c as u32 - '0' as u32) as nat
}

/// The decimal digit of the value `d`.
pub open spec fn digit_char(d: nat) -> char
    recommends
        d < 10,
{
    match d as u8 {
        0 => '0',
        1 => '1',
        2 => '2',
        3 => '3',
        4 => '4',
        5 => '5',
        6 => '6',
        7 => '7',
        8 => '8',
        _ => '9',
    }
}

/// Whether `text` holds decimal digits and nothing else.
pub open spec fn all_digits(text: Seq<char>) -> bool {
    forall|i: int| 0 <= i < text.len() ==> is_digit(#[trigger] text[i])
}

/// The number that the decimal digits `digits` denote.
pub open spec fn decimal_value(digits: Seq<char>) -> nat
    decreases digits.len(),
{
    if digits.len() == 0 {
        0
    } else {
        10 * decimal_value(digits.drop_last()) + digit_value(digits.last())
    }
}

/// The part of `text` after its plus sign, where it begins with one, and all of it where it
/// does not.
pub open spec fn unsigned_part(text: Seq<char>) -> Seq<char> {
    if text.len() > 0 && text[0] == '+' {
        text.drop_first()
    } else {
        text
    }
}

/// Whether `text` is a decimal number: one or more digits, before them at most one plus
/// sign.
pub open spec fn is_decimal(text: Seq<char>) -> bool {
    unsigned_part(text).len() > 0 && all_digits(unsigned_part(text))
}

/// The number that the decimal number `text` denotes.
pub open spec fn decimal_number(text: Seq<char>) -> nat
    recommends
        is_decimal(text),
{
    decimal_value(unsigned_part(text))
}

/// The number below 256 that `text` denotes in decimal. `None` where `text` is no decimal
/// number or denotes a larger number.
pub open spec fn decimal_u8(text: Seq<char>) -> Option<u8> {
    if is_decimal(text) && decimal_number(text) <= u8::MAX {
        Some(decimal_number(text) as u8)
    } else {
        None
    }
}

/// Tests whether `text` is a decimal number, of whatever size.
pub fn holds_decimal(text: &str) -> (decimal: bool)
    ensures
        decimal == is_decimal(text@),
{
    let len = text.unicode_len();
    if len == 0 {
        return false;
    }
    let start: usize = if text.get_char(0) == '+' {
        1
    } else {
        0
    };
    if start >= len {
        return false;
    }
    let ghost digits = unsigned_part(text@);
    let mut at: usize = start;
    while at < len
        invariant
            start <= at <= len,
            start <= 1,
            len == text@.len(),
            digits == unsigned_part(text@),
            digits.len() == len - start,
            forall|i: int| 0 <= i < digits.len() ==> digits[i] == text@[i + start],
            forall|i: int| 0 <= i < at - start ==> is_digit(#[trigger] digits[i]),
        decreases len - at,
    {
        if !is_digit_char(text.get_char(at)) {
            assert(!is_digit(digits[at - start]));
            return false;
        }
        at = at + 1;
    }
    true
}

/// Wraps `str::parse::<u8>`, the decimal parser of the standard library, and drops the kind
/// of its error. Trusted: the standard library documents that the text is an optional plus
/// sign followed by decimal digits only, and that empty text, any other character and a
/// number that does not fit are errors.
#[verifier::external_body]
pub(crate) fn parse_u8(text: &str) -> (number: Option<u8>)
    ensures
        number == decimal_u8(text@),
{
    text.parse::<u8>().ok()
}

/// The decimal digits of `number`, without leading zeros.
pub open spec fn number_text(number: nat) -> Seq<char>
    decreases number,
{
    if number < 10 {
        seq![digit_char(number)]
    } else {
        number_text(number / 10).push(digit_char(number % 10))
    }
}

/// Whether `text` is a number of the notation: a digit from 1 to 9, then any digits.
pub open spec fn is_number(text: Seq<char>) -> bool {
    &&& text.len() >= 1
    &&& '1' <= text[0] <= '9'
    &&& all_digits(text)
}

/// Whether `c` separates the two numbers of a move.
pub open spec fn is_separator(c: char) -> bool {
    c == '-' || c == 'x' || c == 'X'
}

/// Whether `text` is a move of the notation with its separator at the index `at`: a number,
/// a separator and a number, and nothing else.
pub open spec fn is_segment_at(text: Seq<char>, at: int) -> bool {
    &&& 0 < at < text.len() - 1
    &&& is_number(text.subrange(0, at))
    &&& is_separator(text[at])
    &&& is_number(text.subrange(at + 1, text.len() as int))
}

/// Whether `text` is a move of the notation.
pub open spec fn is_segment(text: Seq<char>) -> bool {
    exists|at: int| is_segment_at(text, at)
}

/// The index of the separator in a move of the notation.
pub open spec fn separator_index(text: Seq<char>) -> int
    recommends
        is_segment(text),
{
    choose|at: int| is_segment_at(text, at)
}

/// A move of the notation has its separator in one place only.
pub proof fn lemma_separator_unique(text: Seq<char>, a: int, b: int)
    requires
        is_segment_at(text, a),
        is_segment_at(text, b),
    ensures
        a == b,
{
    if a < b {
        assert(text.subrange(0, b)[a] == text[a]);
    }
    if b < a {
        assert(text.subrange(0, a)[b] == text[b]);
    }
}

fn is_digit_char(c: char) -> (digit: bool)
    ensures
        digit == is_digit(c),
{
    '0' <= c && c <= '9'
}

/// Finds the separator of a move of the notation: its index in characters where `text` is a
/// number, a separator and a number, and `None` where it is not.
pub fn find_separator(text: &str) -> (found: Option<usize>)
    ensures
        match found {
            Some(at) => is_segment_at(text@, at as int),
            None => !is_segment(text@),
        },
{
    let len = text.unicode_len();
    let mut at: usize = 0;
    while at < len
        invariant
            at <= len,
            len == text@.len(),
            forall|i: int| 0 <= i < at ==> is_digit(#[trigger] text@[i]),
        ensures
            at < len ==> !is_digit(text@[at as int]),
        decreases len - at,
    {
        if !is_digit_char(text.get_char(at)) {
            break;
        }
        at = at + 1;
    }
    if at == 0 || at >= len || text.get_char(0) == '0' {
        assert forall|other: int| !is_segment_at(text@, other) by {
            if is_segment_at(text@, other) {
                assert(text@.subrange(0, other)[0] == text@[0]);
                if at < len && at < other {
                    assert(text@.subrange(0, other)[at as int] == text@[at as int]);
                }
            }
        }
        return None;
    }
    let separator = text.get_char(at);
    if !(separator == '-' || separator == 'x' || separator == 'X') {
        assert forall|other: int| !is_segment_at(text@, other) by {
            if is_segment_at(text@, other) {
                if at < other {
                    assert(text@.subrange(0, other)[at as int] == text@[at as int]);
                }
            }
        }
        return None;
    }
    let start = at + 1;
    let mut next: usize = start;
    while next < len
        invariant
            start <= next <= len,
            len == text@.len(),
            forall|i: int| start <= i < next ==> is_digit(#[trigger] text@[i]),
        ensures
            next < len ==> !is_digit(text@[next as int]),
        decreases len - next,
    {
        if !is_digit_char(text.get_char(next)) {
            break;
        }
        next = next + 1;
    }
    if start >= len || next < len || text.get_char(start) == '0' {
        assert forall|other: int| !is_segment_at(text@, other) by {
            if is_segment_at(text@, other) {
                if at < other {
                    assert(text@.subrange(0, other)[at as int] == text@[at as int]);
                }
                assert(other == at);
                let tail = text@.subrange(at + 1, len as int);
                assert(tail[0] == text@[start as int]);
                if next < len {
                    assert(tail[next - start] == text@[next as int]);
                }
            }
        }
        return None;
    }
    proof {
        let head = text@.subrange(0, at as int);
        let tail = text@.subrange(at + 1, len as int);
        assert(head[0] == text@[0]);
        assert(tail[0] == text@[start as int]);
        assert forall|i: int| 0 <= i < head.len() implies is_digit(#[trigger] head[i]) by {
            assert(head[i] == text@[i]);
        }
        assert forall|i: int| 0 <= i < tail.len() implies is_digit(#[trigger] tail[i]) by {
            assert(tail[i] == text@[start + i]);
        }
    }
    Some(at)
}

/// What a number of the notation denotes: the decimal digits of a number from 1 upwards are
/// a number of the notation, begin with no sign, and denote that number.
pub proof fn lemma_number_text(number: nat)
    requires
        number >= 1,
    ensures
        is_number(number_text(number)),
        decimal_value(number_text(number)) == number,
    decreases number,
{
    let text = number_text(number);
    if number < 10 {
        assert(text.drop_last() =~= Seq::<char>::empty());
        assert(decimal_value(text.drop_last()) == 0);
    } else {
        lemma_number_text(number / 10);
        assert(text.drop_last() =~= number_text(number / 10));
        assert(text[0] == number_text(number / 10)[0]);
    }
}

/// The text of a decimal digit.
fn digit_text(digit: u8) -> (text: &'static str)
    requires
        digit < 10,
    ensures
        text@ == seq![digit_char(digit as nat)],
{
    match digit {
        0 => {
            proof {
                reveal_strlit("0");
            }
            "0"
        },
        1 => {
            proof {
                reveal_strlit("1");
            }
            "1"
        },
        2 => {
            proof {
                reveal_strlit("2");
            }
            "2"
        },
        3 => {
            proof {
                reveal_strlit("3");
            }
            "3"
        },
        4 => {
            proof {
                reveal_strlit("4");
            }
            "4"
        },
        5 => {
            proof {
                reveal_strlit("5");
            }
            "5"
        },
        6 => {
            proof {
                reveal_strlit("6");
            }
            "6"
        },
        7 => {
            proof {
                reveal_strlit("7");
            }
            "7"
        },
        8 => {
            proof {
                reveal_strlit("8");
            }
            "8"
        },
        _ => {
            proof {
                reveal_strlit("9");
            }
            "9"
        },
    }
}

/// Appends the decimal digits of `number` to `text`.
pub fn append_number(text: &mut String, number: u8)
    ensures
        final(text)@ == old(text)@ + number_text(number as nat),
{
    proof {
        reveal_with_fuel(number_text, 3);
    }
    if number >= 100 {
        text.append(digit_text(number / 100));
    }
    if number >= 10 {
        text.append(digit_text((number / 10) % 10));
    }
    text.append(digit_text(number % 10));
    assert(text@ =~= old(text)@ + number_text(number as nat));
}

} // verus!
