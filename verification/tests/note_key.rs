use midi_keypad::note_key::{parse_note_key, KeyError, MAX_NOTE};

#[test]
fn plain_decimal_keys_denote_their_number() {
    assert_eq!(parse_note_key("0"), Ok(0));
    assert_eq!(parse_note_key("9"), Ok(9));
    assert_eq!(parse_note_key("60"), Ok(60));
    assert_eq!(parse_note_key("62"), Ok(62));
    assert_eq!(parse_note_key("100"), Ok(100));
    assert_eq!(parse_note_key("127"), Ok(127));
}

#[test]
fn every_note_number_is_the_value_of_its_decimal_text() {
    for note in 0..=MAX_NOTE {
        assert_eq!(parse_note_key(&note.to_string()), Ok(note));
    }
}

#[test]
fn leading_zeros_and_a_plus_sign_are_accepted() {
    assert_eq!(parse_note_key("007"), Ok(7));
    assert_eq!(parse_note_key("060"), Ok(60));
    assert_eq!(parse_note_key("+60"), Ok(60));
    assert_eq!(parse_note_key("+0"), Ok(0));
    assert_eq!(parse_note_key("+0127"), Ok(127));
    assert_eq!(parse_note_key("000000000000000000000000000000000000060"), Ok(60));
}

#[test]
fn numbers_above_127_are_out_of_range() {
    assert_eq!(parse_note_key("128"), Err(KeyError::OutOfRange));
    assert_eq!(parse_note_key("200"), Err(KeyError::OutOfRange));
    assert_eq!(parse_note_key("255"), Err(KeyError::OutOfRange));
    assert_eq!(parse_note_key("256"), Err(KeyError::OutOfRange));
    assert_eq!(parse_note_key("+128"), Err(KeyError::OutOfRange));
    assert_eq!(parse_note_key("0128"), Err(KeyError::OutOfRange));
    assert_eq!(parse_note_key("1270"), Err(KeyError::OutOfRange));
    assert_eq!(parse_note_key("4294967296"), Err(KeyError::OutOfRange));
    assert_eq!(parse_note_key("4294967356"), Err(KeyError::OutOfRange));
    assert_eq!(
        parse_note_key("340282366920938463463374607431768211516"),
        Err(KeyError::OutOfRange)
    );
}

#[test]
fn every_number_from_128_to_999_is_out_of_range() {
    for number in 128u32..1000 {
        assert_eq!(parse_note_key(&number.to_string()), Err(KeyError::OutOfRange));
    }
}

#[test]
fn texts_that_are_not_decimal_numbers_are_not_numeric() {
    assert_eq!(parse_note_key(""), Err(KeyError::NotNumeric));
    assert_eq!(parse_note_key("+"), Err(KeyError::NotNumeric));
    assert_eq!(parse_note_key("-1"), Err(KeyError::NotNumeric));
    assert_eq!(parse_note_key("-0"), Err(KeyError::NotNumeric));
    assert_eq!(parse_note_key("++1"), Err(KeyError::NotNumeric));
    assert_eq!(parse_note_key("1+"), Err(KeyError::NotNumeric));
    assert_eq!(parse_note_key("6o"), Err(KeyError::NotNumeric));
    assert_eq!(parse_note_key("c4"), Err(KeyError::NotNumeric));
    assert_eq!(parse_note_key("1.5"), Err(KeyError::NotNumeric));
    assert_eq!(parse_note_key("0x3c"), Err(KeyError::NotNumeric));
    assert_eq!(parse_note_key(" 60"), Err(KeyError::NotNumeric));
    assert_eq!(parse_note_key("60 "), Err(KeyError::NotNumeric));
    assert_eq!(parse_note_key("6 0"), Err(KeyError::NotNumeric));
    assert_eq!(parse_note_key("/"), Err(KeyError::NotNumeric));
    assert_eq!(parse_note_key(":"), Err(KeyError::NotNumeric));
}

#[test]
fn digits_outside_ascii_are_not_numeric() {
    assert_eq!(parse_note_key("\u{ff16}\u{ff10}"), Err(KeyError::NotNumeric));
    assert_eq!(parse_note_key("6\u{0660}"), Err(KeyError::NotNumeric));
    assert_eq!(parse_note_key("\u{00e9}"), Err(KeyError::NotNumeric));
    assert_eq!(parse_note_key("+\u{00e9}"), Err(KeyError::NotNumeric));
}

#[test]
fn a_text_that_is_both_too_large_and_not_numeric_is_not_numeric() {
    assert_eq!(parse_note_key("999x"), Err(KeyError::NotNumeric));
    assert_eq!(parse_note_key("x999"), Err(KeyError::NotNumeric));
}
