use asn1_xer::de::{Decode, Decoder, Error};
use asn1_xer::error::{DecodeError, DecodeErrorKind, XerDecodeErrorKind};
use asn1_xer::types::{
    AsnType, BitString, Codec, Constraints, Constructed, Field, OctetString, Presence, Tag,
};
use asn1_xer::xer::de::{
    check_prolog, parse_bitstring_value, parse_boolean_value, parse_integer_value,
    parse_octetstring_value, Decoder as XmlDecoder,
};
use asn1_xer::xer::markup::Token;
use asn1_xer::xer::{decode, encode};

fn kind<T>(r: Result<T, DecodeError>) -> XerDecodeErrorKind {
    match r {
        Err(DecodeError { kind: DecodeErrorKind::Xer(kind), codec: Codec::Xer }) => kind,
        Err(_) => panic!("an error of another codec"),
        Ok(_) => panic!("no error"),
    }
}

fn is_spec_violation<T>(r: Result<T, DecodeError>) -> bool {
    matches!(kind(r), XerDecodeErrorKind::SpecViolation { .. })
}

fn is_type_mismatch<T>(r: Result<T, DecodeError>) -> bool {
    matches!(kind(r), XerDecodeErrorKind::XmlTypeMismatch { .. })
}

fn is_wrong_tag<T>(r: Result<T, DecodeError>) -> bool {
    matches!(kind(r), XerDecodeErrorKind::XmlTag { .. })
}

fn is_parser<T>(r: Result<T, DecodeError>) -> bool {
    matches!(kind(r), XerDecodeErrorKind::XmlParser { .. })
}

#[test]
fn the_prolog_with_version_and_encoding_is_accepted() {
    assert_eq!(
        decode::<bool>(br#"<?xml version="1.0" encoding="UTF-8"?><BOOLEAN><true/></BOOLEAN>"#),
        Ok(true)
    );
}

#[test]
fn a_document_without_prolog_is_accepted() {
    assert_eq!(decode::<bool>(b"<BOOLEAN><false/></BOOLEAN>"), Ok(false));
}

#[test]
fn another_version_is_a_violation() {
    assert!(is_spec_violation(decode::<bool>(
        br#"<?xml version="1.1" encoding="UTF-8"?><BOOLEAN><true/></BOOLEAN>"#
    )));
}

#[test]
fn another_encoding_is_refused() {
    let r = decode::<bool>(br#"<?xml version="1.0" encoding="ISO-8859-1"?><BOOLEAN><true/></BOOLEAN>"#);
    assert!(r.is_err());
}

#[test]
fn the_first_event_is_checked_against_the_rule() {
    let good = Some(Token::StartDocument {
        version: String::from("1.0"),
        encoding: String::from("UTF-8"),
        standalone: None,
    });
    assert_eq!(check_prolog(&good), Ok(()));
    assert_eq!(check_prolog(&None), Ok(()));
    assert_eq!(check_prolog(&Some(Token::StartElement { name: String::from("a") })), Ok(()));
    let version = Some(Token::StartDocument {
        version: String::from("1.1"),
        encoding: String::from("UTF-8"),
        standalone: None,
    });
    assert!(is_spec_violation(check_prolog(&version)));
    let encoding = Some(Token::StartDocument {
        version: String::from("1.0"),
        encoding: String::from("ISO-8859-1"),
        standalone: Some(true),
    });
    assert!(is_spec_violation(check_prolog(&encoding)));
    let lower = Some(Token::StartDocument {
        version: String::from("1.0"),
        encoding: String::from("utf-8"),
        standalone: None,
    });
    assert!(is_spec_violation(check_prolog(&lower)));
}

#[test]
fn booleans_are_read_from_words() {
    assert_eq!(parse_boolean_value("true"), Ok(true));
    assert_eq!(parse_boolean_value("false"), Ok(false));
    assert!(is_type_mismatch(parse_boolean_value("TRUE")));
    assert!(is_type_mismatch(parse_boolean_value(" true")));
    assert!(is_type_mismatch(parse_boolean_value("")));
}

#[test]
fn bit_strings_are_read_from_text() {
    assert_eq!(parse_bitstring_value("1010"), Ok(BitString { bits: vec![true, false, true, false] }));
    assert_eq!(parse_bitstring_value("  1 0 1 0  "), parse_bitstring_value("1010"));
    assert_eq!(parse_bitstring_value(""), Ok(BitString { bits: vec![] }));
    assert!(is_spec_violation(parse_bitstring_value("102")));
}

#[test]
fn octet_strings_are_read_from_text() {
    assert_eq!(parse_octetstring_value("01FF"), Ok(vec![0x01, 0xFF]));
    assert_eq!(parse_octetstring_value("01 ff"), Ok(vec![0x01, 0xFF]));
    assert!(is_spec_violation(parse_octetstring_value("01F")));
    assert!(is_spec_violation(parse_octetstring_value("0Z")));
}

#[test]
fn integers_are_read_from_text() {
    assert_eq!(parse_integer_value("-1235352"), Ok(num_bigint::BigInt::from(-1235352)));
    assert_eq!(parse_integer_value("007"), Ok(num_bigint::BigInt::from(7)));
    assert_eq!(
        parse_integer_value("123456789012345678901234567890"),
        Ok(num_bigint::BigInt::parse_bytes(b"123456789012345678901234567890", 10).unwrap())
    );
    assert!(is_spec_violation(parse_integer_value("1_000")));
    assert!(is_spec_violation(parse_integer_value("+1")));
    assert!(is_spec_violation(parse_integer_value("")));
}

#[test]
fn what_was_written_is_read_back() {
    assert_eq!(decode::<bool>(&encode(&true).unwrap()), Ok(true));
    assert_eq!(decode::<bool>(&encode(&false).unwrap()), Ok(false));
    assert_eq!(decode::<()>(&encode(&()).unwrap()), Ok(()));
    for bits in [vec![], vec![true], vec![true, false, true, false], vec![false; 17]] {
        let value = BitString { bits };
        assert_eq!(decode::<BitString>(&encode(&value).unwrap()), Ok(value));
    }
    for bytes in [vec![], vec![0u8], vec![0x01, 0xFF], (0..=255u8).collect::<Vec<u8>>()] {
        let value = OctetString { bytes };
        assert_eq!(decode::<OctetString>(&encode(&value).unwrap()), Ok(value));
    }
    for n in [0i64, 1, -1, 42, -1235352, i64::MAX, i64::MIN] {
        let value = num_bigint::BigInt::from(n);
        assert_eq!(decode::<num_bigint::BigInt>(&encode(&value).unwrap()), Ok(value));
    }
    for text in ["", "hello", "a < b & c > d", "  two  words  ", "\u{00E9}\u{4E2D}"] {
        let value = String::from(text);
        assert_eq!(decode::<String>(&encode(&value).unwrap()), Ok(value));
    }
}

#[test]
fn an_empty_octet_string_is_read_from_an_element_without_content() {
    assert_eq!(decode::<OctetString>(b"<OCTET_STRING/>"), Ok(OctetString { bytes: vec![] }));
    assert_eq!(
        decode::<OctetString>(b"<OCTET_STRING></OCTET_STRING>"),
        Ok(OctetString { bytes: vec![] })
    );
}

#[test]
fn white_space_alone_is_an_empty_bit_string() {
    assert_eq!(decode::<BitString>(b"<BIT_STRING>   </BIT_STRING>"), Ok(BitString { bits: vec![] }));
}

#[test]
fn null_is_read_from_an_element_without_content() {
    assert_eq!(decode::<()>(b"<NULL/>"), Ok(()));
    assert!(is_type_mismatch(decode::<()>(b"<NULL>x</NULL>")));
}

#[test]
fn another_element_name_is_a_wrong_tag() {
    assert!(is_wrong_tag(decode::<bool>(b"<INTEGER>1</INTEGER>")));
    assert!(is_wrong_tag(decode::<BitString>(b"<BOOLEAN><true/></BOOLEAN>")));
}

#[test]
fn another_kind_of_token_is_a_type_mismatch() {
    assert!(is_type_mismatch(decode::<bool>(b"<BOOLEAN><maybe/></BOOLEAN>")));
    assert!(is_type_mismatch(decode::<bool>(b"<BOOLEAN>yes</BOOLEAN>")));
    assert!(is_type_mismatch(decode::<bool>(b"<BOOLEAN></BOOLEAN>")));
    assert!(is_type_mismatch(decode::<BitString>(b"<BIT_STRING><a/></BIT_STRING>")));
}

#[test]
fn text_that_breaks_the_grammar_is_a_violation() {
    assert!(is_spec_violation(decode::<BitString>(b"<BIT_STRING>1021</BIT_STRING>")));
    assert!(is_spec_violation(decode::<OctetString>(b"<OCTET_STRING>ABC</OCTET_STRING>")));
    assert!(is_spec_violation(decode::<num_bigint::BigInt>(b"<INTEGER>12a</INTEGER>")));
    assert!(is_spec_violation(decode::<num_bigint::BigInt>(b"<INTEGER/>")));
}

#[test]
fn input_that_is_no_xml_is_an_error_of_the_parser() {
    assert!(is_parser(decode::<bool>(b"<BOOLEAN><true/>")));
    assert!(is_parser(decode::<bool>(b"")));
    assert!(is_parser(decode::<bool>(b"<BOOLEAN><true></BOOLEAN>")));
}

#[test]
fn tokens_are_handed_out_in_order() {
    let mut decoder = XmlDecoder::new(b"<a>x<b/></a>").unwrap();
    assert_eq!(decoder.codec(), Codec::Xer);
    assert_eq!(decoder.peek(), Some(&Token::StartElement { name: String::from("a") }));
    assert_eq!(decoder.next(), Ok(Token::StartElement { name: String::from("a") }));
    assert_eq!(decoder.peek(), Some(&Token::Characters(String::from("x"))));
    assert_eq!(decoder.next(), Ok(Token::Characters(String::from("x"))));
    assert_eq!(decoder.next(), Ok(Token::StartElement { name: String::from("b") }));
    assert_eq!(decoder.next(), Ok(Token::EndElement { name: String::from("b") }));
    assert_eq!(decoder.next(), Ok(Token::EndElement { name: String::from("a") }));
    assert_eq!(decoder.peek(), None);
    assert_eq!(kind(decoder.next()), XerDecodeErrorKind::EndOfXmlInput);
    assert_eq!(kind(decoder.next()), XerDecodeErrorKind::EndOfXmlInput);
}

#[test]
fn the_end_of_the_input_is_told_from_a_mismatch() {
    let mut decoder = XmlDecoder::new(b"<BOOLEAN><true/></BOOLEAN>").unwrap();
    assert_eq!(decoder.decode_bool(Tag::universal(1)), Ok(true));
    assert_eq!(kind(decoder.decode_bool(Tag::universal(1))), XerDecodeErrorKind::EndOfXmlInput);
}

#[derive(Debug, PartialEq)]
struct Pair {
    a: bool,
    b: Option<bool>,
    c: bool,
}

impl AsnType for Pair {
    fn tag() -> Tag {
        Tag::universal(16)
    }
}

impl Constructed for Pair {
    fn fields() -> Vec<Field> {
        vec![
            Field { name: "a", tag: Tag::universal(1), presence: Presence::Required },
            Field { name: "b", tag: Tag::universal(1), presence: Presence::Optional },
            Field { name: "c", tag: Tag::universal(1), presence: Presence::Default },
        ]
    }
}

impl<D: Decoder> Decode<D> for Pair {
    fn decode_with_tag_and_constraints(
        decoder: &mut D,
        tag: Tag,
        _constraints: Constraints,
    ) -> Result<Self, D::Error> {
        decoder.decode_sequence::<Self, _>(tag, |decoder: &mut D| {
            let a = bool::decode(decoder)?;
            let b = Option::<bool>::decode(decoder)?;
            let c = decoder.decode_default(|| true)?;
            Ok(Pair { a, b, c })
        })
    }
}

#[test]
fn a_sequence_is_read_field_by_field() {
    assert_eq!(
        decode::<Pair>(b"<SEQUENCE><a><true/></a><b><false/></b><c><false/></c></SEQUENCE>"),
        Ok(Pair { a: true, b: Some(false), c: false })
    );
}

#[test]
fn an_absent_optional_field_is_none() {
    assert_eq!(
        decode::<Pair>(b"<SEQUENCE><a><true/></a><c><false/></c></SEQUENCE>"),
        Ok(Pair { a: true, b: None, c: false })
    );
}

#[test]
fn an_absent_field_with_a_default_is_the_default() {
    assert_eq!(
        decode::<Pair>(b"<SEQUENCE><a><false/></a><b><true/></b></SEQUENCE>"),
        Ok(Pair { a: false, b: Some(true), c: true })
    );
    assert_eq!(
        decode::<Pair>(b"<SEQUENCE><a><false/></a></SEQUENCE>"),
        Ok(Pair { a: false, b: None, c: true })
    );
}

#[test]
fn a_field_under_another_name_is_a_wrong_tag() {
    assert!(is_wrong_tag(decode::<Pair>(b"<SEQUENCE><x><true/></x></SEQUENCE>")));
    assert!(is_wrong_tag(decode::<Pair>(b"<Pair><a><true/></a></Pair>")));
}

#[test]
fn a_field_that_is_left_over_is_a_mismatch() {
    assert!(is_type_mismatch(decode::<Pair>(
        b"<SEQUENCE><a><true/></a><d><true/></d></SEQUENCE>"
    )));
}

#[derive(Debug, PartialEq)]
struct Greedy;

impl AsnType for Greedy {
    fn tag() -> Tag {
        Tag::universal(16)
    }
}

impl Constructed for Greedy {
    fn fields() -> Vec<Field> {
        vec![Field { name: "only", tag: Tag::universal(1), presence: Presence::Required }]
    }
}

impl<D: Decoder> Decode<D> for Greedy {
    fn decode_with_tag_and_constraints(
        decoder: &mut D,
        tag: Tag,
        _constraints: Constraints,
    ) -> Result<Self, D::Error> {
        decoder.decode_sequence::<Self, _>(tag, |decoder: &mut D| {
            bool::decode(decoder)?;
            bool::decode(decoder)?;
            Ok(Greedy)
        })
    }
}

#[test]
fn one_field_more_than_declared_is_refused_when_reading() {
    let r = decode::<Greedy>(b"<SEQUENCE><only><true/></only><more><true/></more></SEQUENCE>");
    assert_eq!(kind(r), XerDecodeErrorKind::FieldName);
}

#[test]
fn an_optional_value_that_stands_alone_is_read_if_an_element_comes() {
    assert_eq!(decode::<Option<bool>>(b"<BOOLEAN><true/></BOOLEAN>"), Ok(Some(true)));
    let mut decoder = XmlDecoder::new(b"<a>x</a>").unwrap();
    decoder.next().unwrap();
    assert_eq!(decoder.decode_optional::<bool>(), Ok(None));
    assert_eq!(decoder.decode_optional_with_tag::<bool>(Tag::universal(1)), Ok(None));
    assert_eq!(decoder.decode_optional_with_constraints::<bool>(Constraints::none()), Ok(None));
    assert_eq!(
        decoder.decode_default_with_tag_and_constraints(Tag::universal(1), Constraints::none(), || true),
        Ok(true)
    );
}

#[test]
fn a_custom_decoding_error_keeps_message_and_codec() {
    let error = DecodeError::custom("value out of range", Codec::Xer);
    assert_eq!(
        error,
        DecodeError {
            kind: DecodeErrorKind::Custom { msg: String::from("value out of range") },
            codec: Codec::Xer
        }
    );
    assert_eq!(
        DecodeError::from_xer(XerDecodeErrorKind::EndOfXmlInput),
        DecodeError { kind: DecodeErrorKind::Xer(XerDecodeErrorKind::EndOfXmlInput), codec: Codec::Xer }
    );
}

#[test]
fn a_boolean_mismatch_says_what_was_needed_and_found() {
    assert_eq!(
        kind(parse_boolean_value("TRUE")),
        XerDecodeErrorKind::XmlTypeMismatch {
            needed: "`true` or `false`",
            found: String::from("\"TRUE\"")
        }
    );
    assert_eq!(
        kind(parse_boolean_value("a\"b")),
        XerDecodeErrorKind::XmlTypeMismatch {
            needed: "`true` or `false`",
            found: String::from("\"a\\\"b\"")
        }
    );
}

#[test]
fn errors_say_what_was_needed_and_found() {
    assert_eq!(
        kind(decode::<bool>(b"<INTEGER>1</INTEGER>")),
        XerDecodeErrorKind::XmlTag { needed: String::from("BOOLEAN"), found: String::from("INTEGER") }
    );
    assert_eq!(
        kind(decode::<()>(b"<NULL>x</NULL>")),
        XerDecodeErrorKind::XmlTypeMismatch {
            needed: "the end of an element",
            found: String::from("Characters(x)")
        }
    );
    assert_eq!(
        kind(decode::<BitString>(b"<BIT_STRING><a/></BIT_STRING>")),
        XerDecodeErrorKind::XmlTypeMismatch {
            needed: "character data",
            found: String::from("StartElement(a)")
        }
    );
    assert_eq!(
        kind(decode::<bool>(b"<BOOLEAN><maybe/></BOOLEAN>")),
        XerDecodeErrorKind::XmlTypeMismatch {
            needed: "`true` or `false`",
            found: String::from("maybe")
        }
    );
    assert_eq!(
        kind(decode::<BitString>(b"<BIT_STRING>12</BIT_STRING>")),
        XerDecodeErrorKind::SpecViolation {
            details: String::from(asn1_xer::xer::de::BIT_STRING_RULE)
        }
    );
}

#[test]
fn the_error_of_the_decoder_comes_back_unchanged() {
    for input in [
        &br#"<?xml version="1.1" encoding="UTF-8"?><BOOLEAN><true/></BOOLEAN>"#[..],
        b"",
        b"<",
        b"no xml",
    ] {
        let made = XmlDecoder::new(input).err().unwrap();
        assert_eq!(decode::<bool>(input), Err(made.clone()));
        assert_eq!(decode::<BitString>(input), Err(made));
    }
}

#[test]
fn a_failure_of_the_reader_leaves_the_decoder_as_it_is() {
    let mut decoder = XmlDecoder::new(b"<a>x</b>").unwrap();
    assert_eq!(decoder.next(), Ok(Token::StartElement { name: String::from("a") }));
    assert_eq!(decoder.peek(), Some(&Token::Characters(String::from("x"))));
    assert!(is_parser(decoder.next()));
    assert_eq!(decoder.peek(), Some(&Token::Characters(String::from("x"))));
    assert!(is_parser(decoder.next()));
    assert_eq!(decoder.peek(), Some(&Token::Characters(String::from("x"))));
}
