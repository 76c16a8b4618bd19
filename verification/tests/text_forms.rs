use asn1_xer::xer::text::{
    bitstring_text, is_decimal_text, is_white_space, object_identifier_text, octets_text,
    push_decimal, read_bits, read_octets,
};

#[test]
fn white_space_is_what_the_standard_library_calls_white_space() {
    let mut code: u32 = 0;
    while code <= 0x10FFFF {
        if let Some(c) = char::from_u32(code) {
            assert_eq!(is_white_space(c), c.is_whitespace(), "U+{:04X}", code);
        }
        code += 1;
    }
}

#[test]
fn bits_are_written_first_bit_first() {
    assert_eq!(bitstring_text(&[true, false, true, false]), "1010");
    assert_eq!(bitstring_text(&[false, false, true]), "001");
    assert_eq!(bitstring_text(&[]), "");
}

#[test]
fn bits_are_read_back() {
    assert_eq!(read_bits("1010"), Some(vec![true, false, true, false]));
    assert_eq!(read_bits(""), Some(vec![]));
    assert_eq!(read_bits("   "), Some(vec![]));
}

#[test]
fn white_space_among_bits_means_nothing() {
    assert_eq!(read_bits("  1 0 1 0  "), read_bits("1010"));
    assert_eq!(read_bits("1\n0\t1\r0\u{00A0}"), Some(vec![true, false, true, false]));
}

#[test]
fn other_characters_among_bits_are_refused() {
    assert_eq!(read_bits("1012"), None);
    assert_eq!(read_bits("10x"), None);
    assert_eq!(read_bits("-"), None);
}

#[test]
fn octets_are_written_as_two_upper_case_digits_each() {
    assert_eq!(octets_text(&[0x01, 0xFF]), "01FF");
    assert_eq!(octets_text(&[0x00, 0x0A, 0xA0, 0x9F]), "000AA09F");
    assert_eq!(octets_text(&[]), "");
}

#[test]
fn octets_are_read_back_from_either_case() {
    assert_eq!(read_octets("01FF"), Some(vec![0x01, 0xFF]));
    assert_eq!(read_octets("01ff"), Some(vec![0x01, 0xFF]));
    assert_eq!(read_octets("dEaD bEeF"), Some(vec![0xDE, 0xAD, 0xBE, 0xEF]));
    assert_eq!(read_octets(""), Some(vec![]));
    assert_eq!(read_octets(" 0 1 "), Some(vec![0x01]));
}

#[test]
fn an_odd_number_of_digits_is_refused() {
    assert_eq!(read_octets("012"), None);
    assert_eq!(read_octets("F"), None);
}

#[test]
fn what_is_no_hexadecimal_digit_is_refused() {
    assert_eq!(read_octets("0G"), None);
    assert_eq!(read_octets("0x01"), None);
}

#[test]
fn every_octet_is_read_back_from_its_text() {
    let all: Vec<u8> = (0..=255u8).collect();
    assert_eq!(read_octets(&octets_text(&all)), Some(all));
}

#[test]
fn decimal_digits_are_appended() {
    let mut text = String::from("n=");
    push_decimal(&mut text, 0);
    assert_eq!(text, "n=0");
    push_decimal(&mut text, 4294967295);
    assert_eq!(text, "n=04294967295");
    let mut other = String::new();
    push_decimal(&mut other, 1050);
    assert_eq!(other, "1050");
}

#[test]
fn arcs_are_joined_by_dots() {
    assert_eq!(object_identifier_text(&[1, 2, 840, 113549]), "1.2.840.113549");
    assert_eq!(object_identifier_text(&[0]), "0");
    assert_eq!(object_identifier_text(&[]), "");
}

#[test]
fn the_text_of_an_integer_is_told_from_other_text() {
    assert!(is_decimal_text("0"));
    assert!(is_decimal_text("-1235352"));
    assert!(is_decimal_text("007"));
    assert!(!is_decimal_text(""));
    assert!(!is_decimal_text("-"));
    assert!(!is_decimal_text("+1"));
    assert!(!is_decimal_text("1-2"));
    assert!(!is_decimal_text("--1"));
    assert!(!is_decimal_text("1_000"));
    assert!(!is_decimal_text(" 1"));
}
