use card_info::card::Card;
use card_info::card::Expiration;
use card_info::errors::ParseErrorKind;
use card_info::numbers::parse_u32;
use card_info::numbers::u64_to_string;
use card_info::parser::parse_card;
use card_info::parser::parse_card_numbers;
use card_info::split::split_spaces;

#[test]
fn split_keeps_every_token() {
    assert_eq!(split_spaces("1234567 04 25 123"), vec!["1234567", "04", "25", "123"]);
    assert_eq!(split_spaces(""), vec![""]);
    assert_eq!(split_spaces(" "), vec!["", ""]);
    assert_eq!(split_spaces("a  b"), vec!["a", "", "b"]);
    assert_eq!(split_spaces(" x "), vec!["", "x", ""]);
}

#[test]
fn parse_u32_accepts_plain_decimals_only() {
    assert_eq!(parse_u32("0"), Some(0));
    assert_eq!(parse_u32("04"), Some(4));
    assert_eq!(parse_u32("1234567"), Some(1234567));
    assert_eq!(parse_u32("4294967295"), Some(u32::MAX));
    assert_eq!(parse_u32("4294967296"), None);
    assert_eq!(parse_u32("99999999999999999999"), None);
    assert_eq!(parse_u32(""), None);
    assert_eq!(parse_u32("+5"), None);
    assert_eq!(parse_u32("-5"), None);
    assert_eq!(parse_u32("Dec"), None);
    assert_eq!(parse_u32("12a"), None);
}

#[test]
fn renders_decimals() {
    assert_eq!(u64_to_string(0), "0");
    assert_eq!(u64_to_string(7), "7");
    assert_eq!(u64_to_string(1234567), "1234567");
    assert_eq!(u64_to_string(u64::MAX), "18446744073709551615");
}

#[test]
fn well_formed_string_parses() {
    let card = parse_card("1234567 04 25 123").unwrap();
    assert_eq!(
        card,
        Card { number: 1234567, exp: Expiration { year: 25, month: 4 }, cvv: 123 }
    );
}

#[test]
fn parse_card_numbers_keeps_order() {
    assert_eq!(parse_card_numbers("3 2 1").unwrap(), vec![3, 2, 1]);
}

#[test]
fn non_numeric_token_is_numeric_conversion_failure() {
    let err = parse_card("1234567 Dec 08 123").unwrap_err();
    assert_eq!(err.kind, ParseErrorKind::NumericConversion);
    assert_eq!(
        err.msg.as_deref(),
        Some("Failed to parse input as numbers. Input 1234567 Dec 08 123.")
    );
    let cause = err.source().unwrap();
    assert_eq!(cause.kind, ParseErrorKind::NumericConversion);
    assert_eq!(cause.msg.as_deref(), Some("\"Dec\" could not be parsed as u32."));
    assert!(cause.source().is_none());
}

#[test]
fn first_bad_token_is_reported() {
    let err = parse_card_numbers("1 x y").unwrap_err();
    let cause = err.source().unwrap();
    assert_eq!(cause.msg.as_deref(), Some("\"x\" could not be parsed as u32."));
}

#[test]
fn empty_token_is_a_failure() {
    let err = parse_card("1 2  3 4").unwrap_err();
    assert_eq!(err.kind, ParseErrorKind::NumericConversion);
    let cause = err.source().unwrap();
    assert_eq!(cause.msg.as_deref(), Some("\"\" could not be parsed as u32."));
}

#[test]
fn empty_string_is_one_empty_token() {
    let err = parse_card("").unwrap_err();
    assert_eq!(err.kind, ParseErrorKind::NumericConversion);
    assert_eq!(err.msg.as_deref(), Some("Failed to parse input as numbers. Input ."));
}

#[test]
fn three_tokens_is_malformed_input() {
    let err = parse_card("1234567 0616 123").unwrap_err();
    assert_eq!(err.kind, ParseErrorKind::MalformedInput);
    assert_eq!(
        err.msg.as_deref(),
        Some("Incorrect number of elements parsed. Expected 4 but got 3. Elements: [1234567, 616, 123].")
    );
    assert!(err.source().is_none());
}

#[test]
fn five_tokens_is_malformed_input() {
    let err = parse_card("1 2 3 4 5").unwrap_err();
    assert_eq!(err.kind, ParseErrorKind::MalformedInput);
    assert_eq!(
        err.msg.as_deref(),
        Some("Incorrect number of elements parsed. Expected 4 but got 5. Elements: [1, 2, 3, 4, 5].")
    );
}

#[test]
fn parsing_is_idempotent() {
    let first = parse_card("1234567 04 25 123").unwrap();
    let second = parse_card("1234567 04 25 123").unwrap();
    assert_eq!(first, second);
    let e1 = parse_card("1234567 Dec 08 123").unwrap_err();
    let e2 = parse_card("1234567 Dec 08 123").unwrap_err();
    assert_eq!(e1, e2);
}

#[test]
fn display_message_is_fixed() {
    let err = parse_card("oops").unwrap_err();
    assert_eq!(err.display_message(), "Parsing payment error: Invalid payment info.");
}
