//! The XML encoding rules.
//!
//! A value is written as an element. A field of a constructed type is named
//! after the field; a value that stands alone is named after its type. What
//! stands between the start and the end of the element depends on the
//! built-in type.

pub mod de;
pub mod enc;
pub mod laws;
pub mod markup;
pub mod names;
pub mod text;

use vstd::prelude::*;

verus! {

// The names that values are given where no field names them: those of their
// types, and the two words for a boolean.
pub const BIT_STRING_TYPE_TAG: &'static str = "BIT_STRING";

pub const BOOLEAN_TYPE_TAG: &'static str = "BOOLEAN";

pub const BOOLEAN_TRUE_TAG: &'static str = "true";

pub const BOOLEAN_FALSE_TAG: &'static str = "false";

pub const INTEGER_TYPE_TAG: &'static str = "INTEGER";

pub const NULL_TYPE_TAG: &'static str = "NULL";

pub const OBJECT_IDENTIFIER_TYPE_TAG: &'static str = "OBJECT_IDENTIFIER";

pub const OCTET_STRING_TYPE_TAG: &'static str = "OCTET_STRING";

pub const BMP_STRING_TYPE_TAG: &'static str = "BMPString";

pub const IA5_STRING_TYPE_TAG: &'static str = "IA5String";

pub const VISIBLE_STRING_TYPE_TAG: &'static str = "VisibleString";

pub const UTF8_STRING_TYPE_TAG: &'static str = "UTF8String";

pub const GENERAL_STRING_TYPE_TAG: &'static str = "GeneralString";

pub const PRINTABLE_STRING_TYPE_TAG: &'static str = "PrintableString";

pub const NUMERIC_STRING_TYPE_TAG: &'static str = "NumericString";

pub const TELETEX_STRING_TYPE_TAG: &'static str = "TeletexString";

pub const GENERALIZED_TIME_TYPE_TAG: &'static str = "GeneralizedTime";

pub const UTC_TIME_TYPE_TAG: &'static str = "UTCTime";

pub const SEQUENCE_TYPE_TAG: &'static str = "SEQUENCE";

pub const SEQUENCE_OF_TYPE_TAG: &'static str = "SEQUENCE_OF";

pub const SET_TYPE_TAG: &'static str = "SET";

pub const SET_OF_TYPE_TAG: &'static str = "SET_OF";

} // verus!

verus! {

/// Writes `value` as an XML document: a fresh encoder takes the value, under
/// the name that its type gives it, and the document it has then written is
/// returned. An error of the encoding comes back as it is.
pub fn encode<T: crate::enc::Encode<enc::Encoder>>(value: &T) -> (r: Result<
    Vec<u8>,
    crate::error::EncodeError,
>)
    ensures
        exists|e: &mut enc::Encoder, identifier: Option<&'static str>, inner: Result<(), crate::error::EncodeError>|
            #![trigger call_ensures(T::identifier, (), identifier), call_ensures(T::encode, (value, e, identifier), inner)]
            {
                &&& e@ == enc::EncoderView::fresh()
                &&& call_ensures(T::identifier, (), identifier)
                &&& call_ensures(T::encode, (value, e, identifier), inner)
                &&& match inner {
                    Err(error) => r is Err && r->Err_0 == error,
                    Ok(_) => r is Ok && (final(e)@.intact ==> r->Ok_0@ == markup::document_text(
                        final(e)@.markup,
                    )),
                }
            },
{
    let mut encoder = enc::Encoder::new();
    let identifier = T::identifier();
    match value.encode(&mut encoder, identifier) {
        Ok(()) => Ok(encoder.finish()),
        Err(error) => Err(error),
    }
}

/// Reads a value from the XML document `input`: a fresh decoder over the
/// input hands its tokens to the value's type. An error of the decoder or
/// of the decoding comes back as it is.
pub fn decode<'a, T: crate::de::Decode<de::Decoder<'a>>>(input: &'a [u8]) -> (r: Result<
    T,
    crate::error::DecodeError,
>)
    ensures
        match markup::document_events(input@)[0] {
            Ok(first) if de::breaks_prolog_rule(Some(first)) => r is Err && de::Fault::SpecViolation(
                de::PROLOG_RULE@,
            ).is(r->Err_0),
            _ => match de::DecoderView::initial(markup::document_events(input@)).token() {
                de::Reading::Failed(fault) => r is Err && fault.is(r->Err_0),
                de::Reading::Read(_, start) => exists|d: &mut de::Decoder<'a>|
                    d@ == start && #[trigger] call_ensures(T::decode, (d,), r),
            },
        },
{
    let mut decoder = de::Decoder::new(input)?;
    T::decode(&mut decoder)
}

} // verus!
