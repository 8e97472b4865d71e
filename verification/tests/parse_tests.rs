use timer_app::parse::{parse_i32, u16_to_decimal, ParseIntError};

#[test]
fn parses_plain_integer() {
    assert_eq!(parse_i32("3600"), Ok(3600));
    assert_eq!(parse_i32("0"), Ok(0));
    assert_eq!(parse_i32("42"), Ok(42));
}

#[test]
fn parses_signed_integers() {
    assert_eq!(parse_i32("+7"), Ok(7));
    assert_eq!(parse_i32("-5"), Ok(-5));
    assert_eq!(parse_i32("-0"), Ok(0));
}

#[test]
fn empty_string_is_an_error() {
    assert_eq!(parse_i32(""), Err(ParseIntError::Empty));
}

#[test]
fn non_digit_input_is_an_error() {
    assert_eq!(parse_i32("abc"), Err(ParseIntError::InvalidDigit));
    assert_eq!(parse_i32("12x3"), Err(ParseIntError::InvalidDigit));
    assert_eq!(parse_i32("+"), Err(ParseIntError::InvalidDigit));
    assert_eq!(parse_i32("-"), Err(ParseIntError::InvalidDigit));
    assert_eq!(parse_i32(" 5"), Err(ParseIntError::InvalidDigit));
    assert_eq!(parse_i32("5 "), Err(ParseIntError::InvalidDigit));
    assert_eq!(parse_i32("1.5"), Err(ParseIntError::InvalidDigit));
    assert_eq!(parse_i32("--3"), Err(ParseIntError::InvalidDigit));
}

#[test]
fn values_at_the_i32_bounds() {
    assert_eq!(parse_i32("2147483647"), Ok(i32::MAX));
    assert_eq!(parse_i32("-2147483648"), Ok(i32::MIN));
    assert_eq!(parse_i32("+2147483647"), Ok(i32::MAX));
}

#[test]
fn values_beyond_the_i32_bounds() {
    assert_eq!(parse_i32("2147483648"), Err(ParseIntError::PosOverflow));
    assert_eq!(parse_i32("-2147483649"), Err(ParseIntError::NegOverflow));
    assert_eq!(
        parse_i32("99999999999999999999"),
        Err(ParseIntError::PosOverflow)
    );
}

#[test]
fn error_descriptions_are_the_standard_wording() {
    assert_eq!(
        ParseIntError::Empty.description(),
        "cannot parse integer from empty string"
    );
    assert_eq!(
        ParseIntError::InvalidDigit.description(),
        "invalid digit found in string"
    );
    assert_eq!(
        ParseIntError::PosOverflow.description(),
        "number too large to fit in target type"
    );
    assert_eq!(
        ParseIntError::NegOverflow.description(),
        "number too small to fit in target type"
    );
}

#[test]
fn renders_decimals() {
    assert_eq!(u16_to_decimal(0), "0");
    assert_eq!(u16_to_decimal(7), "7");
    assert_eq!(u16_to_decimal(10), "10");
    assert_eq!(u16_to_decimal(57), "57");
    assert_eq!(u16_to_decimal(65535), "65535");
}
