use asn1_xer::enc::{Encode, Encoder};
use asn1_xer::error::{DecodeError, DecodeErrorKind, XerDecodeErrorKind};
use asn1_xer::types::{AsnType, BitString, Choice, Constraints, OctetString, Tag};
use asn1_xer::xer::de::Decoder;
use asn1_xer::xer::{decode, encode};

fn text(bytes: Vec<u8>) -> String {
    String::from_utf8(bytes).unwrap()
}

#[test]
fn creates_decoder() {
    Decoder::new(
        r#"<?xml version="1.0" encoding="UTF-8"?>
        <Actual>
          <errorCode>
            <local>1</local>
          </errorCode>
          <parameter>
            <BOOLEAN><false/></BOOLEAN>
          </parameter>
        </Actual>"#
            .as_bytes(),
    )
    .unwrap();
}

#[test]
fn boolean() {
    assert_eq!(decode::<bool>("<BOOLEAN>true</BOOLEAN>".as_bytes()), Ok(true));
}

#[test]
fn bit_string() {
    assert_eq!(
        decode::<BitString>("<BIT_STRING>1010</BIT_STRING>".as_bytes()),
        Ok(BitString { bits: vec![true, false, true, false] })
    );
}

#[test]
fn bit_string_ws() {
    assert_eq!(
        decode::<BitString>("<BIT_STRING>  1   0  1  0  </BIT_STRING>".as_bytes()),
        Ok(BitString { bits: vec![true, false, true, false] })
    );
}

#[test]
fn bit_string_empty() {
    assert_eq!(
        decode::<BitString>("<BIT_STRING/>".as_bytes()),
        Ok(BitString { bits: vec![] })
    );
}

#[test]
fn encodes_true() {
    assert_eq!(text(encode(&true).unwrap()), "<BOOLEAN><true/></BOOLEAN>");
    assert_eq!(text(encode(&false).unwrap()), "<BOOLEAN><false/></BOOLEAN>");
}

#[test]
fn decodes_what_true_encodes_to() {
    assert_eq!(decode::<bool>("<BOOLEAN><true/></BOOLEAN>".as_bytes()), Ok(true));
    assert_eq!(decode::<bool>("<BOOLEAN><false/></BOOLEAN>".as_bytes()), Ok(false));
}

#[test]
fn encodes_bit_string() {
    let bits = BitString { bits: vec![true, false, true, false] };
    assert_eq!(text(encode(&bits).unwrap()), "<BIT_STRING>1010</BIT_STRING>");
}

#[test]
fn encodes_octet_string() {
    let bytes = OctetString { bytes: vec![0x01, 0xFF] };
    assert_eq!(text(encode(&bytes).unwrap()), "<OCTET_STRING>01FF</OCTET_STRING>");
}

#[test]
fn encodes_negative_integer() {
    let n = num_bigint::BigInt::from(-1235352);
    assert_eq!(text(encode(&n).unwrap()), "<INTEGER>-1235352</INTEGER>");
}

enum Pick {
    Test1(u8),
}

impl AsnType for Pick {
    fn tag() -> Tag {
        Tag::universal(0)
    }
}

impl Choice for Pick {}

impl<E: Encoder> Encode<E> for Pick {
    fn encode(&self, encoder: &mut E, identifier: Option<&'static str>) -> Result<(), E::Error> {
        encoder
            .encode_choice::<Self, _>(
                Constraints::none(),
                Tag::universal(0),
                |encoder: &mut E| match self {
                    Pick::Test1(value) => {
                        value.encode(encoder, Some("Test1"))?;
                        Ok(Tag::universal(2))
                    }
                },
                identifier,
            )
            .map(drop)
    }

    fn encode_with_tag_and_constraints(
        &self,
        encoder: &mut E,
        tag: Tag,
        _constraints: Constraints,
        identifier: Option<&'static str>,
    ) -> Result<(), E::Error> {
        encoder.encode_explicit_prefix(tag, self, identifier).map(drop)
    }
}

#[test]
fn encodes_choice_under_the_name_of_its_alternative() {
    assert_eq!(text(encode(&Pick::Test1(3)).unwrap()), "<Test1>3</Test1>");
}

#[test]
fn rejects_other_prolog() {
    let r = Decoder::new(r#"<?xml version="1.1" encoding="UTF-8"?><BOOLEAN><true/></BOOLEAN>"#.as_bytes());
    match r {
        Err(DecodeError { kind: DecodeErrorKind::Xer(XerDecodeErrorKind::SpecViolation { .. }), .. }) => {}
        _ => panic!("the version 1.1 was not refused"),
    }
}
