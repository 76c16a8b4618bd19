//! The errors that encoding and decoding report. Every layer hands an error
//! on unchanged; the first one ends the whole operation.

use crate::types::Codec;
use vstd::prelude::*;

verus! {

/// What went wrong while writing XML.
#[derive(Clone, Debug, PartialEq, Eq)]
pub enum XerEncodeErrorKind {
    /// The XML writer refused an event, or a value has no textual form.
    XmlEncodingError { upstream: String },
    /// More fields were encoded than the constructed type declares, or a
    /// value that needs a field name was encoded where there is none.
    FieldName,
}

/// What went wrong while encoding.
#[derive(Clone, Debug, PartialEq, Eq)]
pub enum EncodeErrorKind {
    /// An error raised by the generic layer, with its message.
    Custom { msg: String },
    /// An error of the XML codec.
    Xer(XerEncodeErrorKind),
}

/// An encoding error, with the codec that was at work.
#[derive(Clone, Debug, PartialEq, Eq)]
pub struct EncodeError {
    pub kind: EncodeErrorKind,
    pub codec: Codec,
}

impl EncodeError {
    /// The error of the XML codec for `kind`.
    pub fn from_xer(kind: XerEncodeErrorKind) -> (e: EncodeError)
        ensures
            e.kind == EncodeErrorKind::Xer(kind),
            e.codec == Codec::Xer,
    {
        EncodeError { kind: EncodeErrorKind::Xer(kind), codec: Codec::Xer }
    }

    /// Whether this is the "missing field name" error of the XML codec.
    pub open spec fn is_field_name(self) -> bool {
        self.kind == EncodeErrorKind::Xer(XerEncodeErrorKind::FieldName) && self.codec
            == Codec::Xer
    }

    /// Whether this is an "XML encoding" error of the XML codec.
    pub open spec fn is_xml_encoding(self) -> bool {
        self.kind matches EncodeErrorKind::Xer(XerEncodeErrorKind::XmlEncodingError { .. })
            && self.codec == Codec::Xer
    }
}

impl crate::enc::Error for EncodeError {
    open spec fn is_custom(&self, msg: Seq<char>, codec: Codec) -> bool {
        &&& self.kind matches EncodeErrorKind::Custom { msg: m }
        &&& m@ == msg
        &&& self.codec == codec
    }

    fn custom(msg: &str, codec: Codec) -> (e: Self) {
        EncodeError { kind: EncodeErrorKind::Custom { msg: msg.to_owned() }, codec }
    }
}

/// What went wrong while reading XML.
#[derive(Clone, Debug, PartialEq, Eq)]
pub enum XerDecodeErrorKind {
    /// The next token is of another kind, or holds another text, than the
    /// requested type has.
    XmlTypeMismatch { needed: &'static str, found: String },
    /// The next element has another name than the requested one.
    XmlTag { needed: String, found: String },
    /// The input breaks a rule of the textual grammar.
    SpecViolation { details: String },
    /// The input ended where more tokens were expected.
    EndOfXmlInput,
    /// The XML reader could not parse the input.
    XmlParser { details: String },
    /// More fields were decoded than the constructed type declares.
    FieldName,
}

/// What went wrong while decoding.
#[derive(Clone, Debug, PartialEq, Eq)]
pub enum DecodeErrorKind {
    /// An error raised by the generic layer, with its message.
    Custom { msg: String },
    /// An error of the XML codec.
    Xer(XerDecodeErrorKind),
}

/// A decoding error, with the codec that was at work.
#[derive(Clone, Debug, PartialEq, Eq)]
pub struct DecodeError {
    pub kind: DecodeErrorKind,
    pub codec: Codec,
}

impl DecodeError {
    /// The error of the XML codec for `kind`.
    pub fn from_xer(kind: XerDecodeErrorKind) -> (e: DecodeError)
        ensures
            e.kind == DecodeErrorKind::Xer(kind),
            e.codec == Codec::Xer,
    {
        DecodeError { kind: DecodeErrorKind::Xer(kind), codec: Codec::Xer }
    }
}

impl crate::de::Error for DecodeError {
    open spec fn is_custom(&self, msg: Seq<char>, codec: Codec) -> bool {
        &&& self.kind matches DecodeErrorKind::Custom { msg: m }
        &&& m@ == msg
        &&& self.codec == codec
    }

    fn custom(msg: &str, codec: Codec) -> (e: Self) {
        DecodeError { kind: DecodeErrorKind::Custom { msg: msg.to_owned() }, codec }
    }
}

} // verus!
