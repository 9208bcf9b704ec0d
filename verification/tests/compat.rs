use tfgrid_graphql::compat::{de_i64, de_u64, DecodeError, WireNumber, WireValue};

fn text(s: &str) -> WireValue {
    WireValue::Text(s.to_string())
}

#[test]
fn integers_from_texts() {
    assert_eq!(de_i64(&text("0")), Ok(0));
    assert_eq!(de_i64(&text("1663850262")), Ok(1663850262));
    assert_eq!(de_i64(&text("-42")), Ok(-42));
    assert_eq!(de_i64(&text("+7")), Ok(7));
    assert_eq!(de_i64(&text("-0")), Ok(0));
    assert_eq!(de_i64(&text("007")), Ok(7));
    assert_eq!(de_u64(&text("0")), Ok(0));
    assert_eq!(de_u64(&text("4200")), Ok(4200));
    assert_eq!(de_u64(&text("+0")), Ok(0));
    assert_eq!(de_u64(&text("00000000000000000000000000000012")), Ok(12));
}

#[test]
fn integers_at_the_ends_of_the_range() {
    assert_eq!(de_i64(&text("9223372036854775807")), Ok(i64::MAX));
    assert_eq!(de_i64(&text("-9223372036854775808")), Ok(i64::MIN));
    assert_eq!(de_i64(&text("9223372036854775808")), Err(DecodeError::TooLarge));
    assert_eq!(de_i64(&text("+9223372036854775808")), Err(DecodeError::TooLarge));
    assert_eq!(de_i64(&text("-9223372036854775809")), Err(DecodeError::TooSmall));
    assert_eq!(de_i64(&text("18446744073709551616")), Err(DecodeError::TooLarge));
    assert_eq!(de_i64(&text("-18446744073709551616")), Err(DecodeError::TooSmall));
    assert_eq!(de_i64(&text("-99999999999999999999999999")), Err(DecodeError::TooSmall));
    assert_eq!(de_u64(&text("18446744073709551615")), Ok(u64::MAX));
    assert_eq!(de_u64(&text("18446744073709551616")), Err(DecodeError::TooLarge));
    assert_eq!(de_u64(&text("99999999999999999999999999")), Err(DecodeError::TooLarge));
}

#[test]
fn empty_text() {
    assert_eq!(de_i64(&text("")), Err(DecodeError::Empty));
    assert_eq!(de_u64(&text("")), Err(DecodeError::Empty));
}

#[test]
fn texts_that_are_no_integers() {
    for s in [
        "+", "-", " 1", "1 ", "1_000", "0x10", "12a", "a12", "--1", "+-1", "1e3", "1.0", "１２",
        "٣", "1\n", " ", "99999999999999999999x",
    ] {
        assert_eq!(de_i64(&text(s)), Err(DecodeError::InvalidDigit), "{:?}", s);
        assert_eq!(de_u64(&text(s)), Err(DecodeError::InvalidDigit), "{:?}", s);
    }
    assert_eq!(de_u64(&text("-0")), Err(DecodeError::InvalidDigit));
    assert_eq!(de_u64(&text("-1")), Err(DecodeError::InvalidDigit));
}

#[test]
fn texts_are_read_as_the_standard_library_reads_them() {
    let samples = [
        "", "0", "-0", "+0", "1", "-1", "+1", "+", "-", "++1", "00", "-007", "12345678901234567890",
        "9223372036854775807", "9223372036854775808", "-9223372036854775808",
        "-9223372036854775809", "18446744073709551615", "18446744073709551616", "1a", "a1",
        " 1", "1 ", "1_0", "é", "1é", "+é", "0000000000000000000000000000000000000001",
        "99999999999999999999x", "-99999999999999999999",
    ];
    for s in samples {
        assert_eq!(de_i64(&text(s)).ok(), s.parse::<i64>().ok(), "{:?}", s);
        assert_eq!(de_u64(&text(s)).ok(), s.parse::<u64>().ok(), "{:?}", s);
    }
}

#[test]
fn messages_are_those_of_the_standard_library() {
    let samples = [
        "", "+", "-", "1a", "a1", " 1", "é", "9223372036854775808", "-9223372036854775809",
        "18446744073709551616", "-99999999999999999999",
    ];
    for s in samples {
        let expected = s.parse::<i64>().unwrap_err().to_string();
        assert_eq!(de_i64(&text(s)).unwrap_err().message(), expected, "{:?}", s);
    }
    for s in ["", "+", "-", "-1", "-0", "1a", "18446744073709551616"] {
        let expected = s.parse::<u64>().unwrap_err().to_string();
        assert_eq!(de_u64(&text(s)).unwrap_err().message(), expected, "{:?}", s);
    }
}

#[test]
fn messages_of_errors() {
    assert_eq!(DecodeError::Empty.message(), "cannot parse integer from empty string");
    assert_eq!(DecodeError::InvalidDigit.message(), "invalid digit found in string");
    assert_eq!(DecodeError::TooLarge.message(), "number too large to fit in target type");
    assert_eq!(DecodeError::TooSmall.message(), "number too small to fit in target type");
    assert_eq!(DecodeError::InvalidNumber.message(), "Invalid number");
    assert_eq!(DecodeError::WrongType.message(), "wrong type");
}

#[test]
fn integers_from_numbers() {
    assert_eq!(de_i64(&WireValue::Number(WireNumber::PosInt(5))), Ok(5));
    assert_eq!(de_i64(&WireValue::Number(WireNumber::PosInt(i64::MAX as u64))), Ok(i64::MAX));
    assert_eq!(de_i64(&WireValue::Number(WireNumber::NegInt(-5))), Ok(-5));
    assert_eq!(de_i64(&WireValue::Number(WireNumber::NegInt(i64::MIN))), Ok(i64::MIN));
    assert_eq!(de_u64(&WireValue::Number(WireNumber::PosInt(5))), Ok(5));
    assert_eq!(de_u64(&WireValue::Number(WireNumber::PosInt(u64::MAX))), Ok(u64::MAX));
}

#[test]
fn numbers_that_are_no_integers_of_the_kind() {
    assert_eq!(
        de_i64(&WireValue::Number(WireNumber::PosInt(i64::MAX as u64 + 1))),
        Err(DecodeError::InvalidNumber)
    );
    assert_eq!(de_i64(&WireValue::Number(WireNumber::Float)), Err(DecodeError::InvalidNumber));
    assert_eq!(de_u64(&WireValue::Number(WireNumber::NegInt(-1))), Err(DecodeError::InvalidNumber));
    assert_eq!(de_u64(&WireValue::Number(WireNumber::Float)), Err(DecodeError::InvalidNumber));
}

#[test]
fn values_of_another_type() {
    assert_eq!(de_i64(&WireValue::Other), Err(DecodeError::WrongType));
    assert_eq!(de_u64(&WireValue::Other), Err(DecodeError::WrongType));
}
