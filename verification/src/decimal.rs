//! Numbers in decimal notation, as a reader sees them.

use vstd::prelude::*;
use vstd::string::StringExecFns;
use crate::compat::{
    are_digits, digit_value, digits_value, is_digit, text_as_i64, text_as_u64, DecodeError,
};

verus! {

/// The digit that stands for a number below ten.
pub open spec fn digit_char(d: nat) -> char {
    if d == 0 {
        '0'
    } else if d == 1 {
        '1'
    } else if d == 2 {
        '2'
    } else if d == 3 {
        '3'
    } else if d == 4 {
        '4'
    } else if d == 5 {
        '5'
    } else if d == 6 {
        '6'
    } else if d == 7 {
        '7'
    } else if d == 8 {
        '8'
    } else {
        '9'
    }
}

/// A number in decimal notation: its digits, the first of which is no zero
/// but for the number 0.
pub open spec fn decimal_text(n: nat) -> Seq<char>
    decreases n,
{
    if n < 10 {
        seq![digit_char(n)]
    } else {
        decimal_text(n / 10).push(digit_char(n % 10))
    }
}

/// An integer in decimal notation: the digits of its distance from zero,
/// and a `-` before them where it is below zero.
pub open spec fn signed_decimal_text(n: int) -> Seq<char> {
    if n < 0 {
        seq!['-'] + decimal_text((-n) as nat)
    } else {
        decimal_text(n as nat)
    }
}

/// What is read from a number in decimal notation is the number.
pub proof fn lemma_decimal_text_reads_back(n: u64)
    ensures
        text_as_u64(decimal_text(n as nat)) == Ok::<u64, DecodeError>(n),
{
    lemma_decimal_text_value(n as nat);
}

/// What is read from an integer in decimal notation is the integer.
pub proof fn lemma_signed_decimal_text_reads_back(n: i64)
    ensures
        text_as_i64(signed_decimal_text(n as int)) == Ok::<i64, DecodeError>(n),
{
    let text = signed_decimal_text(n as int);
    if n < 0 {
        lemma_decimal_text_value((-n) as nat);
        assert(text.skip(1) == decimal_text((-n) as nat));
    } else {
        lemma_decimal_text_value(n as nat);
        assert(is_digit(text[0]));
    }
}

proof fn lemma_decimal_text_value(n: nat)
    ensures
        are_digits(decimal_text(n)),
        digits_value(decimal_text(n)) == n,
    decreases n,
{
    let text = decimal_text(n);
    if n < 10 {
        assert(digit_value(digit_char(n)) == n);
        assert(digits_value(text.drop_last()) == 0);
    } else {
        lemma_decimal_text_value(n / 10);
        assert(text.drop_last() == decimal_text(n / 10));
        assert(digit_value(digit_char(n % 10)) == n % 10);
        assert forall|i: int| 0 <= i < text.len() implies is_digit(#[trigger] text[i]) by {
            if i < text.len() - 1 {
                assert(text[i] == decimal_text(n / 10)[i]);
            }
        }
    }
}

/// The digit that stands for a number below ten, as a text.
fn digit_str(d: u64) -> (digit: &'static str)
    requires
        d < 10,
    ensures
        digit@ == seq![digit_char(d as nat)],
{
    proof {
        reveal_strlit("0");
        reveal_strlit("1");
        reveal_strlit("2");
        reveal_strlit("3");
        reveal_strlit("4");
        reveal_strlit("5");
        reveal_strlit("6");
        reveal_strlit("7");
        reveal_strlit("8");
        reveal_strlit("9");
    }
    let digit = if d == 0 {
        "0"
    } else if d == 1 {
        "1"
    } else if d == 2 {
        "2"
    } else if d == 3 {
        "3"
    } else if d == 4 {
        "4"
    } else if d == 5 {
        "5"
    } else if d == 6 {
        "6"
    } else if d == 7 {
        "7"
    } else if d == 8 {
        "8"
    } else {
        "9"
    };
    digit
}

/// Writes a number in decimal notation at the end of a text.
pub(crate) fn push_decimal(text: &mut String, n: u64)
    ensures
        final(text)@ == old(text)@ + decimal_text(n as nat),
    decreases n,
{
    if n >= 10 {
        push_decimal(text, n / 10);
    }
    text.append(digit_str(n % 10));
}

/// Writes an integer in decimal notation at the end of a text.
pub(crate) fn push_signed_decimal(text: &mut String, n: i64)
    ensures
        final(text)@ == old(text)@ + signed_decimal_text(n as int),
{
    if n < 0 {
        proof {
            reveal_strlit("-");
        }
        text.append("-");
        push_decimal(text, (-(n as i128)) as u64);
    } else {
        push_decimal(text, n as u64);
    }
}

} // verus!
