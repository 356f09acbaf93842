//! The text that requests are made of, and the numbers that text stands for.

use vstd::prelude::*;

verus! {

/// `text` with every occurrence of `pattern` replaced by `with`. Occurrences are
/// looked for from the left, and one that overlaps an earlier one is none.
pub open spec fn replaced(text: Seq<char>, pattern: Seq<char>, with: Seq<char>) -> Seq<char>
    decreases text.len(),
{
    if pattern.len() == 0 || text.len() < pattern.len() {
        text
    } else if text.subrange(0, pattern.len() as int) == pattern {
        with + replaced(text.skip(pattern.len() as int), pattern, with)
    } else {
        seq![text[0]] + replaced(text.skip(1), pattern, with)
    }
}

/// The character that stands for a digit below ten.
pub open spec fn digit(value: nat) -> char {
    if value == 0 {
        '0'
    } else if value == 1 {
        '1'
    } else if value == 2 {
        '2'
    } else if value == 3 {
        '3'
    } else if value == 4 {
        '4'
    } else if value == 5 {
        '5'
    } else if value == 6 {
        '6'
    } else if value == 7 {
        '7'
    } else if value == 8 {
        '8'
    } else {
        '9'
    }
}

/// A number in decimal digits, without sign and without leading zeros.
pub open spec fn decimal(value: nat) -> Seq<char>
    decreases value,
{
    if value < 10 {
        seq![digit(value)]
    } else {
        decimal(value / 10).push(digit(value % 10))
    }
}

/// `str::replace` with a string as the pattern: a new string in which each
/// match of the pattern, as `replaced` finds them, has given way to `with`.
/// The empty pattern, which matches between any two characters, is left out.
#[verifier::external_body]
pub(crate) fn replace(text: &str, pattern: &str, with: &str) -> (result: String)
    requires
        pattern@.len() > 0,
    ensures
        result@ == replaced(text@, pattern@, with@),
{
    text.replace(pattern, with)
}

/// `u64::to_string`: the number in decimal digits.
#[verifier::external_body]
pub(crate) fn number(value: u64) -> (result: String)
    ensures
        result@ == decimal(value as nat),
{
    value.to_string()
}

/// The value of a digit, for a character that is one.
pub open spec fn digit_value(character: char) -> Option<nat> {
    if character == '0' {
        Some(0)
    } else if character == '1' {
        Some(1)
    } else if character == '2' {
        Some(2)
    } else if character == '3' {
        Some(3)
    } else if character == '4' {
        Some(4)
    } else if character == '5' {
        Some(5)
    } else if character == '6' {
        Some(6)
    } else if character == '7' {
        Some(7)
    } else if character == '8' {
        Some(8)
    } else if character == '9' {
        Some(9)
    } else {
        None
    }
}

/// The number that a text of decimal digits stands for. A text that is empty
/// or holds anything but digits stands for none.
pub open spec fn number_of(text: Seq<char>) -> Option<nat>
    decreases text.len(),
{
    if text.len() == 0 {
        None
    } else if text.len() == 1 {
        digit_value(text[0])
    } else {
        match (number_of(text.drop_last()), digit_value(text.last())) {
            (Some(high), Some(low)) => Some(high * 10 + low),
            _ => None,
        }
    }
}

/// A number written in decimal digits stands for itself.
pub proof fn lemma_decimal_reads_back(value: nat)
    ensures
        number_of(decimal(value)) == Some(value),
    decreases value,
{
    if value >= 10 {
        lemma_decimal_reads_back(value / 10);
        assert(decimal(value).drop_last() =~= decimal(value / 10));
    }
}

/// Where a text stands for a number, each beginning of it stands for one as
/// well, and for none that is greater.
pub proof fn lemma_number_of_beginning(text: Seq<char>, length: int)
    requires
        0 < length <= text.len(),
        number_of(text) is Some,
    ensures
        number_of(text.take(length)) is Some,
        number_of(text.take(length))->0 <= number_of(text)->0,
    decreases text.len(),
{
    if length == text.len() {
        assert(text.take(length) =~= text);
    } else {
        assert(text.drop_last().take(length) =~= text.take(length));
        lemma_number_of_beginning(text.drop_last(), length);
    }
}

/// The digit that a character stands for, if it is one.
pub fn digit_of(character: char) -> (value: Option<u8>)
    ensures
        match digit_value(character) {
            Some(digit) => value == Some(digit as u8),
            None => value is None,
        },
{
    match character {
        '0' => Some(0),
        '1' => Some(1),
        '2' => Some(2),
        '3' => Some(3),
        '4' => Some(4),
        '5' => Some(5),
        '6' => Some(6),
        '7' => Some(7),
        '8' => Some(8),
        '9' => Some(9),
        _ => None,
    }
}

/// Reads a number in decimal digits: `None` where the text is empty, holds
/// anything but digits, or stands for a number that 64 bits do not hold.
pub fn parse_number(text: &str) -> (value: Option<u64>)
    ensures
        value == match number_of(text@) {
            Some(number) if number <= u64::MAX => Some(number as u64),
            _ => None::<u64>,
        },
{
    let length = text.unicode_len();
    if length == 0 {
        return None;
    }
    let mut number: u64 = 0;
    let mut i: usize = 0;
    while i < length
        invariant
            length == text@.len(),
            i <= length,
            i > 0 ==> number_of(text@.take(i as int)) == Some(number as nat),
            i == 0 ==> number == 0,
        decreases length - i,
    {
        let digit = match digit_of(text.get_char(i)) {
            Some(digit) => digit,
            None => {
                proof {
                    if number_of(text@) is Some {
                        lemma_number_of_beginning(text@, i + 1);
                    }
                }
                return None;
            },
        };
        proof {
            assert(text@.take(i + 1).drop_last() =~= text@.take(i as int));
        }
        if number > (u64::MAX - digit as u64) / 10 {
            proof {
                if number_of(text@) is Some {
                    lemma_number_of_beginning(text@, i + 1);
                }
            }
            return None;
        }
        number = number * 10 + digit as u64;
        i += 1;
    }
    proof {
        assert(text@.take(length as int) =~= text@);
    }
    Some(number)
}

} // verus!
