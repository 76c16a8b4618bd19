use asn1_xer::error::{DecodeError, DecodeErrorKind, XerDecodeErrorKind};
use asn1_xer::types::{
    BmpString, GeneralString, GeneralizedTime, Ia5String, NumericString, ObjectIdentifier,
    PrintableString, TeletexString, UtcTime, VisibleString,
};
use asn1_xer::xer::de::parse_object_identifier_value;
use asn1_xer::xer::text::read_arcs;
use asn1_xer::xer::{decode, encode};

#[test]
fn arcs_are_read_back() {
    assert_eq!(read_arcs("1.2.840.113549"), Some(vec![1, 2, 840, 113549]));
    assert_eq!(read_arcs("0"), Some(vec![0]));
    assert_eq!(read_arcs(""), Some(vec![]));
    assert_eq!(read_arcs("4294967295.0"), Some(vec![4294967295, 0]));
    assert_eq!(read_arcs("01.002"), Some(vec![1, 2]));
}

#[test]
fn what_is_no_object_identifier_is_refused() {
    assert_eq!(read_arcs("."), None);
    assert_eq!(read_arcs("1."), None);
    assert_eq!(read_arcs(".1"), None);
    assert_eq!(read_arcs("1..2"), None);
    assert_eq!(read_arcs("1.a"), None);
    assert_eq!(read_arcs("1 2"), None);
    assert_eq!(read_arcs("4294967296"), None);
    assert_eq!(read_arcs("99999999999999999999"), None);
    assert_eq!(read_arcs("-1"), None);
}

#[test]
fn object_identifiers_are_read_from_text() {
    assert_eq!(parse_object_identifier_value("2.5.4.3"), Ok(ObjectIdentifier { arcs: vec![2, 5, 4, 3] }));
    assert!(matches!(
        parse_object_identifier_value("2.5."),
        Err(DecodeError { kind: DecodeErrorKind::Xer(XerDecodeErrorKind::SpecViolation { .. }), .. })
    ));
}

#[test]
fn object_identifiers_that_were_written_are_read_back() {
    for arcs in [vec![], vec![0], vec![1, 2, 840, 113549, 1, 1, 11], vec![u32::MAX, 0, u32::MAX]] {
        let value = ObjectIdentifier { arcs };
        assert_eq!(decode::<ObjectIdentifier>(&encode(&value).unwrap()), Ok(value));
    }
}

#[test]
fn restricted_strings_that_were_written_are_read_back() {
    for text in ["", "abc 123", "a < b & c", "\u{00E9}t\u{00E9}"] {
        let bytes = text.as_bytes().to_vec();
        let general = GeneralString { bytes: bytes.clone() };
        assert_eq!(decode::<GeneralString>(&encode(&general).unwrap()), Ok(general));
        let visible = VisibleString { bytes: bytes.clone() };
        assert_eq!(decode::<VisibleString>(&encode(&visible).unwrap()), Ok(visible));
        let ia5 = Ia5String { bytes: bytes.clone() };
        assert_eq!(decode::<Ia5String>(&encode(&ia5).unwrap()), Ok(ia5));
        let printable = PrintableString { bytes: bytes.clone() };
        assert_eq!(decode::<PrintableString>(&encode(&printable).unwrap()), Ok(printable));
        let numeric = NumericString { bytes: bytes.clone() };
        assert_eq!(decode::<NumericString>(&encode(&numeric).unwrap()), Ok(numeric));
        let teletex = TeletexString { bytes: bytes.clone() };
        assert_eq!(decode::<TeletexString>(&encode(&teletex).unwrap()), Ok(teletex));
        let bmp = BmpString { bytes };
        assert_eq!(decode::<BmpString>(&encode(&bmp).unwrap()), Ok(bmp));
    }
}

#[test]
fn times_that_were_written_are_read_back() {
    let utc = UtcTime { canonical: b"240229123000Z".to_vec() };
    assert_eq!(decode::<UtcTime>(&encode(&utc).unwrap()), Ok(utc));
    let generalized = GeneralizedTime { canonical: b"20240229123000.5Z".to_vec() };
    assert_eq!(decode::<GeneralizedTime>(&encode(&generalized).unwrap()), Ok(generalized));
}

#[test]
fn a_string_is_read_under_the_name_of_its_type_only() {
    let r = decode::<Ia5String>(b"<VisibleString>x</VisibleString>");
    assert!(matches!(
        r,
        Err(DecodeError { kind: DecodeErrorKind::Xer(XerDecodeErrorKind::XmlTag { .. }), .. })
    ));
}
