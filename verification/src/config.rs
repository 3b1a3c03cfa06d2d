//! The number of streams that the user asks for.

use vstd::prelude::*;

verus! {

/// Why a number of streams is refused.
#[derive(Clone, Copy, Debug, PartialEq, Eq, Structural)]
pub enum NumStreamsError {
    /// It is not a number, or too large a one.
    NotANumber,
    /// It is zero.
    Zero,
}

/// Whether every character is a decimal digit.
pub open spec fn all_digits(text: Seq<char>) -> bool {
    forall|i: int| 0 <= i < text.len() ==> '0' <= #[trigger] text[i] <= '9'
}

/// The number that the decimal digits spell.
pub open spec fn digits_value(text: Seq<char>) -> nat
    decreases text.len(),
{
    if text.len() == 0 {
        0
    } else {
        digits_value(text.drop_last()) * 10 + (text.last() as int - '0' as int) as nat
    }
}

/// The number that `text` spells: an optional plus sign and then digits alone.
pub open spec fn number_in(text: Seq<char>) -> Option<nat> {
    let digits = if text.len() > 0 && text[0] == '+' {
        text.skip(1)
    } else {
        text
    };
    if digits.len() > 0 && all_digits(digits) {
        Some(digits_value(digits))
    } else {
        None
    }
}

/// Reads a number with `str::parse::<usize>`, which takes an optional plus sign
/// and decimal digits and nothing else, and fails where the number is larger
/// than `usize::MAX`.
#[verifier::external_body]
fn parse_usize(text: &str) -> (number: Option<usize>)
    ensures
        match number {
            Some(n) => number_in(text@) == Some(n as nat),
            None => match number_in(text@) {
                Some(n) => n > usize::MAX,
                None => true,
            },
        },
{
    text.parse::<usize>().ok()
}

/// Reads the number of TCP streams per UDP connection: a positive number.
pub fn parse_num_streams(text: &str) -> (result: Result<usize, NumStreamsError>)
    ensures
        match result {
            Ok(n) => n > 0 && number_in(text@) == Some(n as nat),
            Err(NumStreamsError::Zero) => number_in(text@) == Some(0nat),
            Err(NumStreamsError::NotANumber) => match number_in(text@) {
                Some(n) => n > usize::MAX,
                None => true,
            },
        },
{
    match parse_usize(text) {
        None => Err(NumStreamsError::NotANumber),
        Some(n) => if n == 0 {
            Err(NumStreamsError::Zero)
        } else {
            Ok(n)
        },
    }
}

/// A single character spells a number if it is a digit: that digit.
pub proof fn digit_is_a_number(c: char)
    ensures
        number_in(seq![c]) == if '0' <= c <= '9' {
            Some((c as int - '0' as int) as nat)
        } else {
            None
        },
{
    let text = seq![c];
    assert(text.drop_last() =~= Seq::empty());
    assert(text.skip(1).len() == 0);
    reveal_with_fuel(digits_value, 2);
    if '0' <= c <= '9' {
        assert(all_digits(text));
    } else {
        assert(!('0' <= text[0] <= '9'));
    }
}

/// A further character makes a number of ten times the value and the digit more,
/// if it is a digit; if it is not, or there was no number before, there is none.
/// (A plus sign alone is no number, but one may follow it.)
pub proof fn further_digit_is_appended(text: Seq<char>, c: char)
    requires
        text.len() > 0,
        text != seq!['+'],
    ensures
        number_in(text.push(c)) == match number_in(text) {
            Some(n) => if '0' <= c <= '9' {
                Some(n * 10 + (c as int - '0' as int) as nat)
            } else {
                None
            },
            None => None,
        },
{
    let signed = text[0] == '+';
    if signed && text.len() == 1 {
        assert(text =~= seq!['+']);
    }
    let digits = if signed {
        text.skip(1)
    } else {
        text
    };
    let longer = if signed {
        text.push(c).skip(1)
    } else {
        text.push(c)
    };
    assert(longer =~= digits.push(c));
    assert(longer.drop_last() =~= digits);
    if all_digits(digits) && '0' <= c <= '9' {
        assert(all_digits(longer));
    } else if !('0' <= c <= '9') {
        assert(!('0' <= longer[digits.len() as int] <= '9'));
    } else {
        let i = choose|i: int| 0 <= i < digits.len() && !('0' <= #[trigger] digits[i] <= '9');
        assert(!('0' <= longer[i] <= '9'));
    }
}

/// A plus sign before a number changes nothing, two of them are none, and no text
/// is no number.
pub proof fn plus_sign_changes_nothing(text: Seq<char>)
    ensures
        number_in(seq!['+'] + text) == if text.len() > 0 && text[0] == '+' {
            None
        } else {
            number_in(text)
        },
        number_in(seq![]) is None,
{
    let signed = seq!['+'] + text;
    assert(signed.skip(1) =~= text);
    assert(signed[0] == '+');
    if text.len() > 0 && text[0] == '+' {
        assert(!('0' <= text[0] <= '9'));
        assert(!all_digits(signed.skip(1)));
    }
}

} // verus!
