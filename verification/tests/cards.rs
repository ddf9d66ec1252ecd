use bank_payments::bank::payment_instruments::{
    Card, CardError, ACCOUNT_PREFIX_LENGTH, CARD_NUMBER_LENGTH,
};

#[test]
fn card_of_fifteen_digits_is_accepted() {
    let card = Card::try_from("123456789012345".to_string()).expect("a card number");
    assert_eq!(card.card_number(), "123456789012345");
    assert_eq!(card.card_number().len(), CARD_NUMBER_LENGTH);
}

#[test]
fn card_of_fourteen_digits_is_too_short() {
    let r = Card::try_from("12345678901234".to_string());
    assert_eq!(r, Err(CardError::InvalidLength));
}

#[test]
fn card_of_sixteen_digits_is_too_long() {
    let r = Card::try_from("1234567890123456".to_string());
    assert_eq!(r, Err(CardError::InvalidLength));
}

#[test]
fn empty_card_number_has_the_wrong_length() {
    assert_eq!(Card::try_from(String::new()), Err(CardError::InvalidLength));
}

#[test]
fn card_with_a_letter_does_not_parse() {
    let r = Card::try_from("12345678901234a".to_string());
    assert_eq!(r, Err(CardError::ParseError));
}

#[test]
fn card_with_a_letter_in_front_does_not_parse() {
    let r = Card::try_from("x23456789012345".to_string());
    assert_eq!(r, Err(CardError::ParseError));
}

#[test]
fn card_with_a_sign_does_not_parse() {
    let r = Card::try_from("+12345678901234".to_string());
    assert_eq!(r, Err(CardError::ParseError));
    let r = Card::try_from("-12345678901234".to_string());
    assert_eq!(r, Err(CardError::ParseError));
}

#[test]
fn card_with_a_blank_does_not_parse() {
    let r = Card::try_from(" 12345678901234".to_string());
    assert_eq!(r, Err(CardError::ParseError));
}

#[test]
fn card_of_fifteen_bytes_in_wide_characters_does_not_parse() {
    // thirteen digits and one character of two bytes: fifteen bytes
    let text = format!("1234567890123{}", '\u{e9}');
    assert_eq!(text.len(), 15);
    assert_eq!(Card::try_from(text), Err(CardError::ParseError));
}

#[test]
fn card_of_fifteen_wide_digits_has_the_wrong_length() {
    // fifteen characters, each a digit outside ASCII
    let text: String = std::iter::repeat('\u{661}').take(15).collect();
    assert_eq!(text.chars().count(), 15);
    assert_eq!(Card::try_from(text), Err(CardError::InvalidLength));
}

#[test]
fn digits_just_outside_the_range_do_not_parse() {
    // '/' comes just before '0' and ':' just after '9'
    assert_eq!(Card::try_from("12345678901234/".to_string()), Err(CardError::ParseError));
    assert_eq!(Card::try_from("12345678901234:".to_string()), Err(CardError::ParseError));
}

#[test]
fn all_zeros_and_all_nines_are_card_numbers() {
    assert!(Card::try_from("000000000000000".to_string()).is_ok());
    assert!(Card::try_from("999999999999999".to_string()).is_ok());
}

#[test]
fn account_number_is_the_first_two_digits() {
    let card = Card::try_from("420000000000007".to_string()).expect("a card number");
    assert_eq!(card.account_number(), "42");
    assert_eq!(card.account_number().len(), ACCOUNT_PREFIX_LENGTH);
    let card = Card::try_from("001234567890123".to_string()).expect("a card number");
    assert_eq!(card.account_number(), "00");
}

#[test]
fn card_gives_its_number_back() {
    let card = Card::try_from("987654321098765".to_string()).expect("a card number");
    let copy = card.clone();
    assert_eq!(copy, card);
    let text: String = card.into();
    assert_eq!(text, "987654321098765");
    assert_eq!(String::from(copy), "987654321098765");
}
