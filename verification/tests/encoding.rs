use asn1_xer::enc::{Encode, Encoder, Error};
use asn1_xer::error::{EncodeError, EncodeErrorKind, XerEncodeErrorKind};
use asn1_xer::types::{
    Any, AsnType, BitString, BmpString, Codec, Constraints, Constructed, Enumerated, Explicit,
    Field, GeneralString, GeneralizedTime, Ia5String, Implicit, NumericString,
    ObjectIdentifier, OctetString, Presence, PrintableString, SetOf, Tag, TeletexString,
    UtcTime, VisibleString,
};
use asn1_xer::xer::enc::Encoder as XmlEncoder;
use asn1_xer::xer::encode;

fn text(bytes: Vec<u8>) -> String {
    String::from_utf8(bytes).unwrap()
}

fn written<T: Encode<XmlEncoder>>(value: &T) -> String {
    text(encode(value).unwrap())
}

fn is_field_name(r: Result<Vec<u8>, EncodeError>) -> bool {
    matches!(
        r,
        Err(EncodeError { kind: EncodeErrorKind::Xer(XerEncodeErrorKind::FieldName), codec: Codec::Xer })
    )
}

fn is_xml_encoding(r: Result<Vec<u8>, EncodeError>) -> bool {
    matches!(
        r,
        Err(EncodeError {
            kind: EncodeErrorKind::Xer(XerEncodeErrorKind::XmlEncodingError { .. }),
            codec: Codec::Xer
        })
    )
}

#[test]
fn an_empty_bit_string_is_an_element_without_content() {
    assert_eq!(written(&BitString { bits: vec![] }), "<BIT_STRING/>");
}

#[test]
fn an_empty_octet_string_is_an_element_without_content() {
    assert_eq!(written(&OctetString { bytes: vec![] }), "<OCTET_STRING/>");
}

#[test]
fn null_is_an_element_without_content() {
    assert_eq!(written(&()), "<NULL/>");
}

#[test]
fn machine_integers_are_written_in_decimal() {
    assert_eq!(written(&42i32), "<INTEGER>42</INTEGER>");
    assert_eq!(written(&-128i8), "<INTEGER>-128</INTEGER>");
    assert_eq!(written(&i16::MIN), "<INTEGER>-32768</INTEGER>");
    assert_eq!(written(&i64::MIN), "<INTEGER>-9223372036854775808</INTEGER>");
    assert_eq!(written(&(-7isize)), "<INTEGER>-7</INTEGER>");
    assert_eq!(written(&0u8), "<INTEGER>0</INTEGER>");
    assert_eq!(written(&65535u16), "<INTEGER>65535</INTEGER>");
    assert_eq!(written(&u32::MAX), "<INTEGER>4294967295</INTEGER>");
    assert_eq!(written(&u64::MAX), "<INTEGER>18446744073709551615</INTEGER>");
    assert_eq!(written(&12usize), "<INTEGER>12</INTEGER>");
}

#[test]
fn big_integers_are_written_in_decimal() {
    let big = num_bigint::BigInt::parse_bytes(b"-123456789012345678901234567890", 10).unwrap();
    assert_eq!(written(&big), "<INTEGER>-123456789012345678901234567890</INTEGER>");
}

#[test]
fn strings_are_written_as_character_data() {
    assert_eq!(written(&String::from("hello")), "<UTF8String>hello</UTF8String>");
    assert_eq!(written(&"a < b & c"), "<UTF8String>a &lt; b &amp; c</UTF8String>");
    assert_eq!(written(&""), "<UTF8String></UTF8String>");
}

#[test]
fn object_identifiers_are_written_with_dots() {
    assert_eq!(
        written(&ObjectIdentifier { arcs: vec![1, 2, 840, 113549] }),
        "<OBJECT_IDENTIFIER>1.2.840.113549</OBJECT_IDENTIFIER>"
    );
}

#[test]
fn restricted_strings_are_written_under_the_names_of_their_types() {
    let bytes = b"abc 123".to_vec();
    assert_eq!(written(&GeneralString { bytes: bytes.clone() }), "<GeneralString>abc 123</GeneralString>");
    assert_eq!(written(&VisibleString { bytes: bytes.clone() }), "<VisibleString>abc 123</VisibleString>");
    assert_eq!(written(&Ia5String { bytes: bytes.clone() }), "<IA5String>abc 123</IA5String>");
    assert_eq!(written(&PrintableString { bytes: bytes.clone() }), "<PrintableString>abc 123</PrintableString>");
    assert_eq!(written(&NumericString { bytes: b"123".to_vec() }), "<NumericString>123</NumericString>");
    assert_eq!(written(&TeletexString { bytes: bytes.clone() }), "<TeletexString>abc 123</TeletexString>");
    assert_eq!(written(&BmpString { bytes }), "<BMPString>abc 123</BMPString>");
}

#[test]
fn bytes_that_are_no_text_are_refused() {
    assert!(is_xml_encoding(encode(&GeneralString { bytes: vec![0xFF, 0xFE] })));
    assert!(is_xml_encoding(encode(&BmpString { bytes: vec![0x00, 0xD8, 0x00] })));
    assert!(is_xml_encoding(encode(&UtcTime { canonical: vec![0xC0] })));
}

#[test]
fn times_are_written_in_their_canonical_text() {
    assert_eq!(
        written(&GeneralizedTime { canonical: b"20240229123000Z".to_vec() }),
        "<GeneralizedTime>20240229123000Z</GeneralizedTime>"
    );
    assert_eq!(
        written(&UtcTime { canonical: b"240229123000Z".to_vec() }),
        "<UTCTime>240229123000Z</UTCTime>"
    );
}

#[test]
fn values_behind_references_and_in_boxes_are_written_as_themselves() {
    assert_eq!(written(&&true), "<BOOLEAN><true/></BOOLEAN>");
    assert_eq!(written(&Box::new(5u8)), "<INTEGER>5</INTEGER>");
    assert_eq!(written(&Some(false)), "<BOOLEAN><false/></BOOLEAN>");
}

#[test]
fn an_absent_value_is_not_written() {
    assert_eq!(written(&None::<bool>), "");
}

#[test]
fn the_encoder_starts_empty() {
    assert_eq!(XmlEncoder::new().finish(), Vec::<u8>::new());
    assert_eq!(XmlEncoder::default().finish(), Vec::<u8>::new());
    assert_eq!(XmlEncoder::new().codec(), Codec::Xer);
}

#[test]
fn a_field_may_override_tag_and_constraints() {
    let mut encoder = XmlEncoder::new();
    true.encode_with_tag(&mut encoder, Tag::new(asn1_xer::types::Class::Context, 0), None).unwrap();
    7u8.encode_with_constraints(&mut encoder, Constraints::none(), Some("seven")).unwrap();
    assert_eq!(text(encoder.finish()), "<BOOLEAN><true/></BOOLEAN><seven>7</seven>");
}

struct Pair {
    a: bool,
    b: Option<u8>,
    c: u8,
}

impl AsnType for Pair {
    fn tag() -> Tag {
        Tag::universal(16)
    }

    fn identifier() -> Option<&'static str> {
        Some("Pair")
    }
}

impl Constructed for Pair {
    fn fields() -> Vec<Field> {
        vec![
            Field { name: "a", tag: Tag::universal(1), presence: Presence::Required },
            Field { name: "b", tag: Tag::universal(2), presence: Presence::Optional },
            Field { name: "c", tag: Tag::universal(2), presence: Presence::Default },
        ]
    }
}

impl<E: Encoder> Encode<E> for Pair {
    fn encode_with_tag_and_constraints(
        &self,
        encoder: &mut E,
        tag: Tag,
        _constraints: Constraints,
        identifier: Option<&'static str>,
    ) -> Result<(), E::Error> {
        encoder
            .encode_sequence::<Self, _>(
                tag,
                |encoder: &mut E| {
                    self.a.encode(encoder, None)?;
                    self.b.encode(encoder, None)?;
                    encoder.encode_default(&self.c, None, || 9u8)?;
                    Ok(())
                },
                identifier,
            )
            .map(drop)
    }
}

#[test]
fn a_sequence_holds_its_fields_under_their_names() {
    let pair = Pair { a: true, b: Some(3), c: 4 };
    assert_eq!(written(&pair), "<Pair><a><true/></a><b>3</b><c>4</c></Pair>");
}

#[test]
fn an_absent_field_leaves_no_element() {
    let pair = Pair { a: false, b: None, c: 4 };
    assert_eq!(written(&pair), "<Pair><a><false/></a><c>4</c></Pair>");
}

#[test]
fn a_field_that_has_its_default_value_leaves_no_element() {
    let pair = Pair { a: false, b: Some(1), c: 9 };
    assert_eq!(written(&pair), "<Pair><a><false/></a><b>1</b></Pair>");
}

#[test]
fn a_sequence_without_a_name_is_named_after_its_kind() {
    let pair = Pair { a: true, b: None, c: 9 };
    let mut encoder = XmlEncoder::new();
    pair.encode(&mut encoder, None).unwrap();
    assert_eq!(text(encoder.finish()), "<SEQUENCE><a><true/></a></SEQUENCE>");
}

struct Nested {
    first: Pair,
    last: bool,
}

impl AsnType for Nested {
    fn tag() -> Tag {
        Tag::universal(16)
    }

    fn identifier() -> Option<&'static str> {
        Some("Nested")
    }
}

impl Constructed for Nested {
    fn fields() -> Vec<Field> {
        vec![
            Field { name: "first", tag: Tag::universal(16), presence: Presence::Required },
            Field { name: "last", tag: Tag::universal(1), presence: Presence::Required },
        ]
    }
}

impl<E: Encoder> Encode<E> for Nested {
    fn encode_with_tag_and_constraints(
        &self,
        encoder: &mut E,
        tag: Tag,
        _constraints: Constraints,
        identifier: Option<&'static str>,
    ) -> Result<(), E::Error> {
        encoder
            .encode_set::<Self, _>(
                tag,
                |encoder: &mut E| {
                    self.first.encode(encoder, None)?;
                    self.last.encode(encoder, None)
                },
                identifier,
            )
            .map(drop)
    }
}

#[test]
fn a_nested_sequence_takes_the_name_of_its_field() {
    let nested = Nested { first: Pair { a: true, b: None, c: 1 }, last: false };
    assert_eq!(
        written(&nested),
        "<Nested><first><a><true/></a><c>1</c></first><last><false/></last></Nested>"
    );
}

struct TooMany;

impl AsnType for TooMany {
    fn tag() -> Tag {
        Tag::universal(16)
    }
}

impl Constructed for TooMany {
    fn fields() -> Vec<Field> {
        vec![Field { name: "only", tag: Tag::universal(1), presence: Presence::Required }]
    }
}

impl<E: Encoder> Encode<E> for TooMany {
    fn encode_with_tag_and_constraints(
        &self,
        encoder: &mut E,
        tag: Tag,
        _constraints: Constraints,
        identifier: Option<&'static str>,
    ) -> Result<(), E::Error> {
        encoder
            .encode_sequence::<Self, _>(
                tag,
                |encoder: &mut E| {
                    true.encode(encoder, None)?;
                    false.encode(encoder, None)
                },
                identifier,
            )
            .map(drop)
    }
}

#[test]
fn one_field_more_than_declared_is_refused() {
    assert!(is_field_name(encode(&TooMany)));
}

#[test]
fn collections_hold_their_items_under_the_names_of_their_types() {
    assert_eq!(
        written(&vec![true, false]),
        "<SEQUENCE_OF><BOOLEAN><true/></BOOLEAN><BOOLEAN><false/></BOOLEAN></SEQUENCE_OF>"
    );
    assert_eq!(written(&Vec::<u8>::new()), "<SEQUENCE_OF/>");
    assert_eq!(
        written(&[7u8, 8u8]),
        "<SEQUENCE_OF><INTEGER>7</INTEGER><INTEGER>8</INTEGER></SEQUENCE_OF>"
    );
    assert_eq!(
        written(&SetOf { items: vec![1u8, 2u8] }),
        "<SET_OF><INTEGER>1</INTEGER><INTEGER>2</INTEGER></SET_OF>"
    );
}

#[test]
fn a_collection_stops_at_the_first_item_that_fails() {
    let items = vec![GeneralString { bytes: b"ok".to_vec() }, GeneralString { bytes: vec![0xFF] }];
    assert!(is_xml_encoding(encode(&items)));
}

#[derive(Clone, Copy, PartialEq)]
enum Colour {
    Red,
    Green,
}

impl AsnType for Colour {
    fn tag() -> Tag {
        Tag::universal(10)
    }

    fn identifier() -> Option<&'static str> {
        Some("Colour")
    }
}

impl Enumerated for Colour {
    fn identifier(&self) -> &'static str {
        match self {
            Colour::Red => "red",
            Colour::Green => "green",
        }
    }
}

impl<E: Encoder> Encode<E> for Colour {
    fn encode_with_tag_and_constraints(
        &self,
        encoder: &mut E,
        tag: Tag,
        _constraints: Constraints,
        identifier: Option<&'static str>,
    ) -> Result<(), E::Error> {
        encoder.encode_enumerated(tag, self, identifier).map(drop)
    }
}

#[test]
fn an_enumerated_value_is_an_empty_element_named_after_the_alternative() {
    assert_eq!(written(&Colour::Red), "<Colour><red/></Colour>");
    assert_eq!(written(&Colour::Green), "<Colour><green/></Colour>");
}

#[test]
fn an_enumerated_value_without_any_name_is_refused() {
    let mut encoder = XmlEncoder::new();
    let r = Colour::Red.encode(&mut encoder, None);
    assert!(is_field_name(r.map(|_| Vec::new())));
}

struct Holder {
    inner: Any,
}

impl AsnType for Holder {
    fn tag() -> Tag {
        Tag::universal(16)
    }

    fn identifier() -> Option<&'static str> {
        Some("Holder")
    }
}

impl Constructed for Holder {
    fn fields() -> Vec<Field> {
        vec![Field { name: "inner", tag: Tag::universal(0), presence: Presence::Required }]
    }
}

impl<E: Encoder> Encode<E> for Holder {
    fn encode_with_tag_and_constraints(
        &self,
        encoder: &mut E,
        tag: Tag,
        _constraints: Constraints,
        identifier: Option<&'static str>,
    ) -> Result<(), E::Error> {
        encoder
            .encode_sequence::<Self, _>(
                tag,
                |encoder: &mut E| self.inner.encode(encoder, None),
                identifier,
            )
            .map(drop)
    }
}

#[test]
fn a_fragment_is_passed_through() {
    let holder = Holder { inner: Any { contents: br#"<a x="1">t<b/><!-- c --></a>"#.to_vec() } };
    assert_eq!(written(&holder), r#"<Holder><inner><a x="1">t<b/></a></inner></Holder>"#);
}

#[test]
fn white_space_between_the_events_of_a_fragment_is_left_out() {
    let holder = Holder { inner: Any { contents: b"<a>\n  <b>1</b>\n</a>".to_vec() } };
    assert_eq!(written(&holder), "<Holder><inner><a><b>1</b></a></inner></Holder>");
}

#[test]
fn a_fragment_with_a_prolog_is_refused() {
    let holder = Holder {
        inner: Any { contents: br#"<?xml version="1.0" encoding="UTF-8"?><a/>"#.to_vec() },
    };
    assert!(is_xml_encoding(encode(&holder)));
}

#[test]
fn a_fragment_that_stands_alone_has_no_name() {
    assert!(is_field_name(encode(&Any { contents: b"<a/>".to_vec() })));
}

#[test]
fn tags_change_nothing_in_xml() {
    let explicit: Explicit<bool, u8> = Explicit { tag_of: core::marker::PhantomData, value: 7 };
    assert_eq!(written(&explicit), "<INTEGER>7</INTEGER>");
    let implicit: Implicit<bool, u8> = Implicit { tag_of: core::marker::PhantomData, value: 7 };
    assert_eq!(written(&implicit), "<INTEGER>7</INTEGER>");
}

#[test]
fn fields_of_a_later_revision_are_written_as_fields() {
    let mut encoder = XmlEncoder::new();
    encoder.encode_extension_addition(Tag::universal(1), Constraints::none(), true).unwrap();
    encoder.encode_extension_addition_group::<Pair>(None).unwrap();
    let group = Pair { a: false, b: None, c: 9 };
    encoder.encode_extension_addition_group(Some(&group)).unwrap();
    assert_eq!(
        text(encoder.finish()),
        "<BOOLEAN><true/></BOOLEAN><SEQUENCE><a><false/></a></SEQUENCE>"
    );
}

#[test]
fn the_default_of_a_type_is_left_out_too() {
    let mut encoder = XmlEncoder::new();
    encoder.encode_or_default(&0u8, Some("zero")).unwrap();
    encoder.encode_or_default(&1u8, Some("one")).unwrap();
    encoder.encode_with_tag_or_default(Tag::universal(2), &false, Some("off")).unwrap();
    encoder.encode_with_tag_or_default(Tag::universal(2), &true, Some("on")).unwrap();
    encoder.encode_default_with_tag(Tag::universal(2), &5u8, Some("five"), || 5u8).unwrap();
    encoder
        .encode_default_with_tag_and_constraints(
            Tag::universal(2),
            Constraints::none(),
            &6u8,
            Some("six"),
            || 5u8,
        )
        .unwrap();
    encoder.encode_default_with_constraints(Constraints::none(), &7u8, Some("seven"), || 7u8).unwrap();
    encoder.encode_none_with_tag(Tag::universal(2)).unwrap();
    encoder.encode_some_with_tag(Tag::universal(2), &8u8, Some("eight")).unwrap();
    assert_eq!(
        text(encoder.finish()),
        "<one>1</one><on><true/></on><six>6</six><eight>8</eight>"
    );
}

#[test]
fn a_custom_error_keeps_message_and_codec() {
    let error = EncodeError::custom("value out of range", Codec::Ber);
    assert_eq!(
        error,
        EncodeError {
            kind: EncodeErrorKind::Custom { msg: String::from("value out of range") },
            codec: Codec::Ber
        }
    );
    assert_eq!(
        EncodeError::from_xer(XerEncodeErrorKind::FieldName),
        EncodeError { kind: EncodeErrorKind::Xer(XerEncodeErrorKind::FieldName), codec: Codec::Xer }
    );
}

#[test]
fn a_name_with_a_colon_is_a_name_like_any_other() {
    let mut encoder = XmlEncoder::new();
    true.encode(&mut encoder, Some("a:b")).unwrap();
    Colour::Red.encode(&mut encoder, Some("x:y:z")).unwrap();
    assert_eq!(text(encoder.finish()), "<a:b><true/></a:b><x:y:z><red/></x:y:z>");
}

#[test]
fn a_fragment_that_cannot_be_read_is_refused() {
    for contents in [&b"<a><b></a>"[..], b"<a>", b"", b"text", b"<a>&nope;</a>"] {
        let holder = Holder { inner: Any { contents: contents.to_vec() } };
        assert!(is_xml_encoding(encode(&holder)), "{:?}", String::from_utf8_lossy(contents));
    }
}

#[test]
fn a_prolog_after_a_byte_order_mark_is_refused_too() {
    let mut utf8 = vec![0xEF, 0xBB, 0xBF];
    utf8.extend_from_slice(br#"<?xml version="1.0" encoding="UTF-8"?><a/>"#);
    assert!(is_xml_encoding(encode(&Holder { inner: Any { contents: utf8 } })));
    let mut little = vec![0xFF, 0xFE];
    for byte in br#"<?xml version="1.0"?><a/>"# {
        little.push(*byte);
        little.push(0);
    }
    assert!(is_xml_encoding(encode(&Holder { inner: Any { contents: little } })));
    let mut big = vec![0xFE, 0xFF];
    for byte in br#"<?xml version="1.0"?><a/>"# {
        big.push(0);
        big.push(*byte);
    }
    assert!(is_xml_encoding(encode(&Holder { inner: Any { contents: big } })));
}

#[test]
fn a_fragment_after_a_byte_order_mark_is_passed_through() {
    let mut contents = vec![0xEF, 0xBB, 0xBF];
    contents.extend_from_slice(b"<a>1</a>");
    assert_eq!(
        written(&Holder { inner: Any { contents } }),
        "<Holder><inner><a>1</a></inner></Holder>"
    );
}

#[test]
fn what_looks_like_a_declaration_but_is_none_is_no_prolog() {
    let holder = Holder { inner: Any { contents: b"<?xmlish data?><a/>".to_vec() } };
    assert_eq!(written(&holder), "<Holder><inner><?xmlish data?><a/></inner></Holder>");
}

#[test]
fn a_fragment_without_a_field_leaves_nothing_written() {
    let mut encoder = XmlEncoder::new();
    let r = encoder.encode_any(Tag::universal(0), &Any { contents: b"<a>1</a>".to_vec() });
    assert!(is_field_name(r.map(|_| Vec::new())));
    assert_eq!(encoder.finish(), Vec::<u8>::new());
}

#[test]
fn a_well_formed_fragment_is_written_again_in_order() {
    let holder = Holder {
        inner: Any { contents: br#"<a><b k="v">1</b><c/><![CDATA[x<y]]><?pi d?></a>"#.to_vec() },
    };
    assert_eq!(
        written(&holder),
        r#"<Holder><inner><a><b k="v">1</b><c/><![CDATA[x<y]]><?pi d?></a></inner></Holder>"#
    );
}
