use file_converter::ascii::{asc_to_txt, txt_to_asc};
use file_converter::error::ConvertError;

#[test]
fn listing_pads_codes_to_three_digits() {
    assert_eq!(txt_to_asc("A\n~").unwrap(), "065 010 126 ");
}

#[test]
fn listing_of_empty_text_is_empty() {
    assert_eq!(txt_to_asc("").unwrap(), "");
}

#[test]
fn listing_keeps_codes_above_three_digits_whole() {
    assert_eq!(txt_to_asc("é€😀").unwrap(), "233 8364 128512 ");
}

#[test]
fn listing_is_read_back() {
    assert_eq!(asc_to_txt("072 105 033 ").unwrap(), "Hi!");
}

#[test]
fn ascii_text_survives_the_round_trip() {
    let text = "Hello, world!\t 0129 ~\u{7f}\u{0}";
    let listing = txt_to_asc(text).unwrap();
    assert_eq!(asc_to_txt(&listing).unwrap(), text);
}

#[test]
fn text_beyond_ascii_is_not_read_back() {
    let listing = txt_to_asc("na\u{ef}ve").unwrap();
    assert_eq!(asc_to_txt(&listing), Err(ConvertError::InvalidValue));
}

#[test]
fn letters_are_no_listing() {
    assert_eq!(asc_to_txt("abc"), Err(ConvertError::InvalidFormat));
}

#[test]
fn empty_listing_is_no_listing() {
    assert_eq!(asc_to_txt(""), Err(ConvertError::InvalidFormat));
    assert_eq!(asc_to_txt("  \n"), Err(ConvertError::InvalidFormat));
}

#[test]
fn two_spaces_in_a_row_leave_an_empty_token() {
    assert_eq!(asc_to_txt("65  66"), Err(ConvertError::InvalidFormat));
}

#[test]
fn code_above_127_is_refused() {
    assert_eq!(asc_to_txt("65 128"), Err(ConvertError::InvalidValue));
    assert_eq!(asc_to_txt("127").unwrap(), "\u{7f}");
}

#[test]
fn first_bad_token_decides_the_error() {
    assert_eq!(asc_to_txt("200 x"), Err(ConvertError::InvalidValue));
    assert_eq!(asc_to_txt("x 200"), Err(ConvertError::InvalidFormat));
}

#[test]
fn number_of_any_size_is_a_number() {
    assert_eq!(asc_to_txt("4294967295"), Err(ConvertError::InvalidValue));
    assert_eq!(asc_to_txt("4294967296"), Err(ConvertError::InvalidValue));
    assert_eq!(asc_to_txt("18446744073709551616"), Err(ConvertError::InvalidValue));
    assert_eq!(
        asc_to_txt("999999999999999999999999999999999999999999"),
        Err(ConvertError::InvalidValue)
    );
    assert_eq!(asc_to_txt("65 4294967296 x"), Err(ConvertError::InvalidValue));
}

#[test]
fn large_number_with_another_character_is_no_number() {
    assert_eq!(asc_to_txt("4294967296x"), Err(ConvertError::InvalidFormat));
    assert_eq!(asc_to_txt("99999999999999999999-"), Err(ConvertError::InvalidFormat));
}

#[test]
fn plus_sign_and_short_numbers_are_read() {
    assert_eq!(asc_to_txt("+65 7 0000066").unwrap(), "A\u{7}B");
    assert_eq!(asc_to_txt("+"), Err(ConvertError::InvalidFormat));
    assert_eq!(asc_to_txt("-1"), Err(ConvertError::InvalidFormat));
}

#[test]
fn white_space_around_a_listing_is_dropped() {
    assert_eq!(asc_to_txt("\n\t 104 105 \r\n").unwrap(), "hi");
    assert_eq!(asc_to_txt("\u{a0}104\u{3000}").unwrap(), "h");
}
