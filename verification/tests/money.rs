use pvault::money::{format_amount, parse_amount, ParseAmountError, MAX_FRACTION_DIGITS};

#[test]
fn parses_common_shapes() {
    assert_eq!(parse_amount("12", 2), Ok(1200));
    assert_eq!(parse_amount("12.5", 2), Ok(1250));
    assert_eq!(parse_amount("12.05", 2), Ok(1205));
    assert_eq!(parse_amount(" 7 ", 2), Ok(700));
    assert_eq!(parse_amount(".5", 2), Ok(50));
    assert_eq!(parse_amount("12", 0), Ok(12));
}

#[test]
fn rejects_junk() {
    assert_eq!(parse_amount("", 2), Err(ParseAmountError::Empty));
    assert_eq!(parse_amount("-5", 2), Err(ParseAmountError::NotANumber));
    assert_eq!(parse_amount("1e5", 2), Err(ParseAmountError::NotANumber));
    assert_eq!(
        parse_amount("1.234", 2),
        Err(ParseAmountError::TooPrecise { allowed: 2 })
    );
    assert_eq!(
        parse_amount("99999999999999999999", 2),
        Err(ParseAmountError::TooLarge)
    );
}

#[test]
fn formats_with_padding() {
    assert_eq!(format_amount(1205, 2), "12.05");
    assert_eq!(format_amount(5, 2), "0.05");
    assert_eq!(format_amount(-1250, 2), "-12.50");
    assert_eq!(format_amount(12, 0), "12");
    assert_eq!(format_amount(i64::MIN, 2), "-92233720368547758.08");
}

#[test]
fn round_trips() {
    for amount in [0i64, 1, 99, 100, 123_456_789] {
        let text = format_amount(amount, 2);
        assert_eq!(parse_amount(&text, 2), Ok(amount));
    }
}

#[test]
fn round_trips_at_every_allowed_precision() {
    for digits in 0..=MAX_FRACTION_DIGITS {
        for amount in [0i64, 7, 1_000, 987_654_321, i64::MAX] {
            let text = format_amount(amount, digits);
            assert_eq!(parse_amount(&text, digits), Ok(amount), "{text} at {digits}");
        }
    }
}

#[test]
fn a_plus_sign_and_surrounding_whitespace_are_accepted() {
    assert_eq!(parse_amount("+3.25", 2), Ok(325));
    assert_eq!(parse_amount("\t 3 \n", 2), Ok(300));
    assert_eq!(parse_amount("\u{a0}4\u{3000}", 2), Ok(400));
    assert_eq!(parse_amount("1.", 2), Ok(100));
    assert_eq!(parse_amount("007.5", 1), Ok(75));
}

#[test]
fn odd_shapes_are_refused() {
    assert_eq!(parse_amount("   ", 2), Err(ParseAmountError::Empty));
    assert_eq!(parse_amount("+", 2), Err(ParseAmountError::Empty));
    assert_eq!(parse_amount(".", 2), Err(ParseAmountError::NotANumber));
    assert_eq!(parse_amount("++1", 2), Err(ParseAmountError::NotANumber));
    assert_eq!(parse_amount("+ 1", 2), Err(ParseAmountError::NotANumber));
    assert_eq!(parse_amount("1.2.3", 2), Err(ParseAmountError::NotANumber));
    assert_eq!(parse_amount("1,5", 2), Err(ParseAmountError::NotANumber));
    assert_eq!(parse_amount("1.5", 0), Err(ParseAmountError::TooPrecise { allowed: 0 }));
}

#[test]
fn amounts_at_the_edge_of_an_i64() {
    assert_eq!(parse_amount("9223372036854775807", 0), Ok(i64::MAX));
    assert_eq!(parse_amount("9223372036854775808", 0), Err(ParseAmountError::TooLarge));
    assert_eq!(parse_amount("92233720368547758.07", 2), Ok(i64::MAX));
    assert_eq!(parse_amount("92233720368547758.08", 2), Err(ParseAmountError::TooLarge));
    assert_eq!(parse_amount("0", 19), Err(ParseAmountError::TooLarge));
    assert_eq!(parse_amount("0.5", 18), Ok(500_000_000_000_000_000));
}

#[test]
fn precision_past_nine_digits_keeps_a_nine_digit_scale() {
    assert_eq!(format_amount(5, 12), "0.000000000005");
    assert_eq!(format_amount(12_345_678_901, 10), "12.0345678901");
    assert_eq!(format_amount(-7, 0), "-7");
}

#[test]
fn parse_errors_read_as_sentences() {
    assert_eq!(ParseAmountError::Empty.to_string(), "no amount given");
    assert_eq!(ParseAmountError::NotANumber.to_string(), "not a valid amount");
    assert_eq!(
        ParseAmountError::TooPrecise { allowed: 2 }.to_string(),
        "at most 2 decimal places are allowed"
    );
    assert_eq!(ParseAmountError::TooLarge.to_string(), "amount is too large");
}
