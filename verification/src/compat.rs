//! Compatibility tools for reading the integers of a reply: what the grid
//! counts in big numbers, it sends as a number or as a text in decimal
//! notation.

use vstd::prelude::*;
use vstd::string::is_ascii_spec_bytes;

verus! {

/// A number of a reply.
#[derive(Clone, Copy, Debug, PartialEq, Eq)]
pub enum WireNumber {
    /// An integer that is not negative.
    PosInt(u64),
    /// An integer below zero.
    NegInt(i64),
    /// A number with a fraction or an exponent.
    Float,
}

/// A value of a reply, as far as an integer can be read from it.
#[derive(Debug, PartialEq, Eq)]
pub enum WireValue {
    Text(String),
    Number(WireNumber),
    /// Anything else: a truth value, a list, an object or nothing.
    Other,
}

/// Why no integer could be read from a value.
#[derive(Clone, Copy, Debug, PartialEq, Eq)]
pub enum DecodeError {
    /// The text is empty.
    Empty,
    /// The text is no integer in decimal notation.
    InvalidDigit,
    /// The text denotes an integer above the range of the integer asked for.
    TooLarge,
    /// The text denotes an integer below the range of the integer asked for.
    TooSmall,
    /// The number is no integer, or one beyond the range of the integer
    /// asked for.
    InvalidNumber,
    /// The value is neither a text nor a number.
    WrongType,
}

impl DecodeError {
    /// What to tell a reader of the error.
    pub open spec fn message_text(self) -> Seq<char> {
        match self {
            DecodeError::Empty => "cannot parse integer from empty string"@,
            DecodeError::InvalidDigit => "invalid digit found in string"@,
            DecodeError::TooLarge => "number too large to fit in target type"@,
            DecodeError::TooSmall => "number too small to fit in target type"@,
            DecodeError::InvalidNumber => "Invalid number"@,
            DecodeError::WrongType => "wrong type"@,
        }
    }

    /// What to tell a reader of the error.
    pub fn message(&self) -> (message: &'static str)
        ensures
            message@ == self.message_text(),
    {
        match self {
            DecodeError::Empty => "cannot parse integer from empty string",
            DecodeError::InvalidDigit => "invalid digit found in string",
            DecodeError::TooLarge => "number too large to fit in target type",
            DecodeError::TooSmall => "number too small to fit in target type",
            DecodeError::InvalidNumber => "Invalid number",
            DecodeError::WrongType => "wrong type",
        }
    }
}

/// The character is one of the ten digits.
pub open spec fn is_digit(c: char) -> bool {
    '0' <= c <= '9'
}

/// The number that a digit stands for.
pub open spec fn digit_value(c: char) -> nat {
    if is_digit(c) {
        (c as int - '0' as int) as nat
    } else {
        0
    }
}

/// The text is not empty and made of digits only.
pub open spec fn are_digits(text: Seq<char>) -> bool {
    &&& text.len() > 0
    &&& forall|i: int| 0 <= i < text.len() ==> is_digit(#[trigger] text[i])
}

/// The number that digits denote in decimal notation.
pub open spec fn digits_value(digits: Seq<char>) -> nat
    decreases digits.len(),
{
    if digits.len() == 0 {
        0
    } else {
        digits_value(digits.drop_last()) * 10 + digit_value(digits.last())
    }
}

/// The integer that a text denotes in decimal notation: digits, and before
/// them a `+`, or a `-` where `signed` allows one, or nothing. There is
/// none where the text is of another form.
pub open spec fn decimal(text: Seq<char>, signed: bool) -> Option<int> {
    if text.len() > 0 && text[0] == '-' && signed {
        if are_digits(text.skip(1)) {
            Some(-(digits_value(text.skip(1)) as int))
        } else {
            None
        }
    } else if text.len() > 0 && text[0] == '+' {
        if are_digits(text.skip(1)) {
            Some(digits_value(text.skip(1)) as int)
        } else {
            None
        }
    } else if are_digits(text) {
        Some(digits_value(text) as int)
    } else {
        None
    }
}

/// The `i64` that a text denotes in decimal notation, or why there is none.
pub open spec fn text_as_i64(text: Seq<char>) -> Result<i64, DecodeError> {
    if text.len() == 0 {
        Err(DecodeError::Empty)
    } else {
        match decimal(text, true) {
            Some(value) => if value > i64::MAX {
                Err(DecodeError::TooLarge)
            } else if value < i64::MIN {
                Err(DecodeError::TooSmall)
            } else {
                Ok(value as i64)
            },
            None => Err(DecodeError::InvalidDigit),
        }
    }
}

/// The `u64` that a text denotes in decimal notation, or why there is none.
/// No `-` may stand before the digits, not even before zero.
pub open spec fn text_as_u64(text: Seq<char>) -> Result<u64, DecodeError> {
    if text.len() == 0 {
        Err(DecodeError::Empty)
    } else {
        match decimal(text, false) {
            Some(value) => if value > u64::MAX {
                Err(DecodeError::TooLarge)
            } else {
                Ok(value as u64)
            },
            None => Err(DecodeError::InvalidDigit),
        }
    }
}

/// The `i64` that a value holds: that which a text denotes, or that which a
/// number is.
pub open spec fn value_as_i64(value: WireValue) -> Result<i64, DecodeError> {
    match value {
        WireValue::Text(text) => text_as_i64(text@),
        WireValue::Number(WireNumber::PosInt(n)) => if n <= i64::MAX {
            Ok(n as i64)
        } else {
            Err(DecodeError::InvalidNumber)
        },
        WireValue::Number(WireNumber::NegInt(n)) => Ok(n),
        WireValue::Number(WireNumber::Float) => Err(DecodeError::InvalidNumber),
        WireValue::Other => Err(DecodeError::WrongType),
    }
}

/// The `u64` that a value holds: that which a text denotes, or that which a
/// number is.
pub open spec fn value_as_u64(value: WireValue) -> Result<u64, DecodeError> {
    match value {
        WireValue::Text(text) => text_as_u64(text@),
        WireValue::Number(WireNumber::PosInt(n)) => Ok(n),
        WireValue::Number(WireNumber::NegInt(_)) => Err(DecodeError::InvalidNumber),
        WireValue::Number(WireNumber::Float) => Err(DecodeError::InvalidNumber),
        WireValue::Other => Err(DecodeError::WrongType),
    }
}

proof fn lemma_no_decimal_beyond_ascii(text: Seq<char>, signed: bool)
    requires
        !vstd::utf8::is_ascii_chars(text),
    ensures
        decimal(text, signed) is None,
{
    let i = choose|i: int| 0 <= i < text.len() && !('\0' <= #[trigger] text[i] <= '\u{7f}');
    assert(!is_digit(text[i]));
    if i > 0 {
        assert(text.skip(1)[i - 1] == text[i]);
    }
}

/// The byte that stands for the character `+` in a text.
const PLUS: u8 = 43;

/// The byte that stands for the character `-` in a text.
const MINUS: u8 = 45;

/// The byte that stands for the character `0` in a text.
const ZERO: u8 = 48;

/// The byte that stands for the character `9` in a text.
const NINE: u8 = 57;

/// What a run of characters denotes as a number without a sign.
enum Digits {
    /// The characters are digits, and this is their number.
    Number(u64),
    /// The characters are digits, and their number is more than a `u64` holds.
    TooLarge,
    /// There is no character, or one that is no digit.
    Invalid,
}

/// What the characters of `text` from the index `from` on denote.
fn parse_digits(text: &str, from: usize) -> (digits: Digits)
    requires
        text.is_ascii(),
        from <= text@.len(),
    ensures
        match digits {
            Digits::Number(n) => are_digits(text@.skip(from as int)) && n == digits_value(
                text@.skip(from as int),
            ),
            Digits::TooLarge => are_digits(text@.skip(from as int)) && digits_value(
                text@.skip(from as int),
            ) > u64::MAX,
            Digits::Invalid => !are_digits(text@.skip(from as int)),
        },
{
    let bytes = text.as_bytes();
    let n: usize = bytes.len();
    let ghost digits = text@.skip(from as int);
    proof {
        is_ascii_spec_bytes(text);
    }
    if from >= n {
        return Digits::Invalid;
    }
    let mut number: u64 = 0;
    let mut too_large: bool = false;
    let mut i: usize = from;
    while i < n
        invariant
            from <= i <= n,
            n == text@.len(),
            digits == text@.skip(from as int),
            text.is_ascii(),
            bytes@ == Seq::new(text@.len(), |k: int| text@[k] as u8),
            forall|k: int| 0 <= k < i - from ==> is_digit(#[trigger] digits[k]),
            !too_large ==> number == digits_value(digits.take(i - from)),
            too_large ==> digits_value(digits.take(i - from)) > u64::MAX,
        decreases n - i,
    {
        let byte: u8 = bytes[i];
        let ghost c = text@[i as int];
        assert(digits[i - from] == c);
        assert(byte == c as u8);
        if byte < ZERO || byte > NINE {
            return Digits::Invalid;
        }
        let digit: u64 = (byte - ZERO) as u64;
        proof {
            assert(digit == digit_value(c));
            assert(digits.take(i - from + 1).drop_last() == digits.take(i - from));
        }
        if !too_large {
            match number.checked_mul(10) {
                Some(tens) => match tens.checked_add(digit) {
                    Some(more) => {
                        number = more;
                    },
                    None => {
                        too_large = true;
                    },
                },
                None => {
                    too_large = true;
                },
            }
        }
        i += 1;
    }
    assert(digits.take(n - from) == digits);
    if too_large {
        Digits::TooLarge
    } else {
        Digits::Number(number)
    }
}

/// The `i64` that `text` denotes in decimal notation.
fn parse_i64(text: &str) -> (number: Result<i64, DecodeError>)
    ensures
        number == text_as_i64(text@),
{
    if !text.is_ascii() {
        proof {
            lemma_no_decimal_beyond_ascii(text@, true);
        }
        return Err(DecodeError::InvalidDigit);
    }
    let bytes = text.as_bytes();
    proof {
        is_ascii_spec_bytes(text);
    }
    if bytes.len() == 0 {
        return Err(DecodeError::Empty);
    }
    let first: u8 = bytes[0];
    assert(first == text@[0] as u8);
    assert(text@.skip(0) == text@);
    if first == MINUS {
        match parse_digits(text, 1) {
            Digits::Number(n) => if n <= i64::MAX as u64 + 1 {
                Ok((-(n as i128)) as i64)
            } else {
                Err(DecodeError::TooSmall)
            },
            Digits::TooLarge => Err(DecodeError::TooSmall),
            Digits::Invalid => Err(DecodeError::InvalidDigit),
        }
    } else {
        let from: usize = if first == PLUS {
            1
        } else {
            0
        };
        assert(first == PLUS <==> text@[0] == '+');
        match parse_digits(text, from) {
            Digits::Number(n) => if n <= i64::MAX as u64 {
                Ok(n as i64)
            } else {
                Err(DecodeError::TooLarge)
            },
            Digits::TooLarge => Err(DecodeError::TooLarge),
            Digits::Invalid => Err(DecodeError::InvalidDigit),
        }
    }
}

/// The `u64` that `text` denotes in decimal notation.
fn parse_u64(text: &str) -> (number: Result<u64, DecodeError>)
    ensures
        number == text_as_u64(text@),
{
    if !text.is_ascii() {
        proof {
            lemma_no_decimal_beyond_ascii(text@, false);
        }
        return Err(DecodeError::InvalidDigit);
    }
    let bytes = text.as_bytes();
    proof {
        is_ascii_spec_bytes(text);
    }
    if bytes.len() == 0 {
        return Err(DecodeError::Empty);
    }
    let first: u8 = bytes[0];
    assert(first == text@[0] as u8);
    assert(text@.skip(0) == text@);
    let from: usize = if first == PLUS {
        1
    } else {
        0
    };
    assert(first == PLUS <==> text@[0] == '+');
    match parse_digits(text, from) {
        Digits::Number(n) => Ok(n),
        Digits::TooLarge => Err(DecodeError::TooLarge),
        Digits::Invalid => Err(DecodeError::InvalidDigit),
    }
}

/// Reads an `i64` from a value that is a number or a text in decimal
/// notation.
pub fn de_i64(value: &WireValue) -> (number: Result<i64, DecodeError>)
    ensures
        number == value_as_i64(*value),
{
    match value {
        WireValue::Text(text) => parse_i64(text.as_str()),
        WireValue::Number(WireNumber::PosInt(n)) => if *n <= i64::MAX as u64 {
            Ok(*n as i64)
        } else {
            Err(DecodeError::InvalidNumber)
        },
        WireValue::Number(WireNumber::NegInt(n)) => Ok(*n),
        WireValue::Number(WireNumber::Float) => Err(DecodeError::InvalidNumber),
        WireValue::Other => Err(DecodeError::WrongType),
    }
}

/// Reads a `u64` from a value that is a number or a text in decimal
/// notation.
pub fn de_u64(value: &WireValue) -> (number: Result<u64, DecodeError>)
    ensures
        number == value_as_u64(*value),
{
    match value {
        WireValue::Text(text) => parse_u64(text.as_str()),
        WireValue::Number(WireNumber::PosInt(n)) => Ok(*n),
        WireValue::Number(WireNumber::NegInt(_)) => Err(DecodeError::InvalidNumber),
        WireValue::Number(WireNumber::Float) => Err(DecodeError::InvalidNumber),
        WireValue::Other => Err(DecodeError::WrongType),
    }
}

} // verus!
