use card_info::card::Card;
use card_info::card::Expiration;
use card_info::directory::get_credit_card_info;
use card_info::directory::Directory;
use card_info::errors::CreditCardError;
use card_info::errors::ParseErrorKind;

fn sample_directory() -> Directory {
    let mut d = Directory::new();
    d.insert("Amy", "1234567 04 25 123");
    d.insert("Tim", "1234567 Dec 08 123");
    d.insert("Bob", "1234567 0616 123");
    d
}

#[test]
fn amy_yields_a_record() {
    let d = sample_directory();
    let card = get_credit_card_info(&d, "Amy").unwrap();
    assert_eq!(
        card,
        Card { number: 1234567, exp: Expiration { year: 25, month: 4 }, cvv: 123 }
    );
}

#[test]
fn tim_yields_an_other_failure() {
    let d = sample_directory();
    let err = get_credit_card_info(&d, "Tim").unwrap_err();
    match err {
        CreditCardError::Other(parse_err, context) => {
            assert_eq!(parse_err.kind, ParseErrorKind::NumericConversion);
            assert_eq!(
                parse_err.source().unwrap().msg.as_deref(),
                Some("\"Dec\" could not be parsed as u32.")
            );
            assert_eq!(context, "Tim's could not be parsed.");
        },
        other => panic!("expected an Other failure, got {other:?}"),
    }
}

#[test]
fn zoe_is_not_found() {
    let d = sample_directory();
    let err = get_credit_card_info(&d, "Zoe").unwrap_err();
    match err {
        CreditCardError::InvalidInput(msg) => {
            assert_eq!(msg, "No credit card was found for Zoe.");
        },
        other => panic!("expected invalid input, got {other:?}"),
    }
}

#[test]
fn wrong_count_is_invalid_input() {
    let d = sample_directory();
    let err = get_credit_card_info(&d, "Bob").unwrap_err();
    match err {
        CreditCardError::InvalidInput(msg) => {
            assert_eq!(
                msg,
                "Incorrect number of elements parsed. Expected 4 but got 3. Elements: [1234567, 616, 123]."
            );
        },
        other => panic!("expected invalid input, got {other:?}"),
    }
}

#[test]
fn later_insert_shadows_earlier() {
    let mut d = Directory::new();
    d.insert("Amy", "not even close");
    d.insert("Amy", "1 2 3 4");
    let card = get_credit_card_info(&d, "Amy").unwrap();
    assert_eq!(card, Card { number: 1, exp: Expiration { year: 3, month: 2 }, cvv: 4 });
}

#[test]
fn user_messages_split_safe_from_diagnostic() {
    let d = sample_directory();
    let not_found = get_credit_card_info(&d, "Zoe").unwrap_err();
    assert_eq!(not_found.user_message(), "No credit card was found for Zoe.");
    let internal = get_credit_card_info(&d, "Tim").unwrap_err();
    assert_eq!(internal.user_message(), "Something went wrong, please try again.");
}

#[test]
fn empty_name_behaves_like_any_other_key() {
    let mut d = Directory::new();
    d.insert("", "9 8 7 6");
    let card = get_credit_card_info(&d, "").unwrap();
    assert_eq!(card.number, 9);
    assert_eq!(card.cvv, 6);
}
