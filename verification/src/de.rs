//! The decoding protocol: how a value is rebuilt from a data format.
//!
//! It mirrors the encoding protocol. `Decode` is the value's side, `Decoder`
//! the format's, and what a method of one side returns is what the method of
//! the other side that it calls returns: its contract names that call.

use crate::types::{
    AsnType, BitString, BmpString, Codec, Constraints, Constructed, GeneralString,
    GeneralizedTime, Ia5String, NumericString, ObjectIdentifier, OctetString, PrintableString,
    Tag, TeletexString, UtcTime, VisibleString,
};
use vstd::prelude::*;

verus! {

/// An error that a data format reports while decoding. The generic layer
/// raises its own errors through `custom`, so that they carry the codec.
pub trait Error: Sized {
    /// Whether this error is the generic one with message `msg`, raised while
    /// `codec` was at work. Nothing is known of it unless the type says so.
    open spec fn is_custom(&self, msg: Seq<char>, codec: Codec) -> bool {
        true
    }

    /// The generic error with message `msg`, raised while `codec` was at work.
    fn custom(msg: &str, codec: Codec) -> (e: Self)
        ensures
            e.is_custom(msg@, codec),
    ;
}

/// What the operations of one data format return when they fail.
pub trait Outcome: Sized {
    type Error: Error;
}

/// A value that can be read from the data format `D`.
///
/// A type implements `decode_with_tag_and_constraints`. The other three
/// methods supply the type's own tag or constraints where the caller gives
/// none.
pub trait Decode<D: Outcome>: Sized + AsnType {
    /// Reads a value under the type's own tag and constraints.
    fn decode(decoder: &mut D) -> (r: Result<Self, D::Error>)
        default_ensures
            exists|d: &mut D, tag: Tag|
                {
                    &&& *d == *old(decoder)
                    &&& *final(d) == *final(decoder)
                    &&& call_ensures(Self::tag, (), tag)
                    &&& #[trigger] call_ensures(Self::decode_with_tag, (d, tag), r)
                },
    {
        Self::decode_with_tag(decoder, Self::tag())
    }

    /// Reads a value under `tag` and the type's own constraints.
    fn decode_with_tag(decoder: &mut D, tag: Tag) -> (r: Result<Self, D::Error>)
        default_ensures
            exists|d: &mut D, constraints: Constraints|
                {
                    &&& *d == *old(decoder)
                    &&& *final(d) == *final(decoder)
                    &&& call_ensures(Self::constraints, (), constraints)
                    &&& #[trigger] call_ensures(
                        Self::decode_with_tag_and_constraints,
                        (d, tag, constraints),
                        r,
                    )
                },
    {
        Self::decode_with_tag_and_constraints(decoder, tag, Self::constraints())
    }

    /// Reads a value under the type's own tag and `constraints`.
    fn decode_with_constraints(decoder: &mut D, constraints: Constraints) -> (r: Result<
        Self,
        D::Error,
    >)
        default_ensures
            exists|d: &mut D, tag: Tag|
                {
                    &&& *d == *old(decoder)
                    &&& *final(d) == *final(decoder)
                    &&& call_ensures(Self::tag, (), tag)
                    &&& #[trigger] call_ensures(
                        Self::decode_with_tag_and_constraints,
                        (d, tag, constraints),
                        r,
                    )
                },
    {
        Self::decode_with_tag_and_constraints(decoder, Self::tag(), constraints)
    }

    /// Reads a value under `tag` and `constraints`.
    fn decode_with_tag_and_constraints(
        decoder: &mut D,
        tag: Tag,
        constraints: Constraints,
    ) -> (r: Result<Self, D::Error>);
}

/// A data format that any value can be read from.
///
/// There is one operation for each built-in type that can be read back, one
/// for sequences, and a few for fields that may be absent. A sequence hands
/// the reading of its fields over as a closure, which the format runs
/// between whatever it reads before and after them.
pub trait Decoder: Outcome {
    /// The codec that this decoder is for.
    fn codec(&self) -> Codec;

    /// Reads a bit string.
    fn decode_bit_string(&mut self, tag: Tag, constraints: Constraints) -> Result<
        BitString,
        Self::Error,
    >;

    /// Reads a boolean.
    fn decode_bool(&mut self, tag: Tag) -> Result<bool, Self::Error>;

    /// Reads an integer.
    fn decode_integer(&mut self, tag: Tag, constraints: Constraints) -> Result<
        num_bigint::BigInt,
        Self::Error,
    >;

    /// Reads the null value.
    fn decode_null(&mut self, tag: Tag) -> Result<(), Self::Error>;

    /// Reads an octet string.
    fn decode_octet_string(&mut self, tag: Tag, constraints: Constraints) -> Result<
        Vec<u8>,
        Self::Error,
    >;

    /// Reads a UTF-8 string.
    fn decode_utf8_string(&mut self, tag: Tag, constraints: Constraints) -> Result<
        String,
        Self::Error,
    >;

    /// Reads an object identifier.
    fn decode_object_identifier(&mut self, tag: Tag) -> Result<ObjectIdentifier, Self::Error>;

    /// Reads a general string.
    fn decode_general_string(&mut self, tag: Tag, constraints: Constraints) -> Result<
        GeneralString,
        Self::Error,
    >;

    /// Reads a visible string.
    fn decode_visible_string(&mut self, tag: Tag, constraints: Constraints) -> Result<
        VisibleString,
        Self::Error,
    >;

    /// Reads an IA5 string.
    fn decode_ia5_string(&mut self, tag: Tag, constraints: Constraints) -> Result<
        Ia5String,
        Self::Error,
    >;

    /// Reads a printable string.
    fn decode_printable_string(&mut self, tag: Tag, constraints: Constraints) -> Result<
        PrintableString,
        Self::Error,
    >;

    /// Reads a numeric string.
    fn decode_numeric_string(&mut self, tag: Tag, constraints: Constraints) -> Result<
        NumericString,
        Self::Error,
    >;

    /// Reads a teletex string.
    fn decode_teletex_string(&mut self, tag: Tag, constraints: Constraints) -> Result<
        TeletexString,
        Self::Error,
    >;

    /// Reads a BMP string.
    fn decode_bmp_string(&mut self, tag: Tag, constraints: Constraints) -> Result<
        BmpString,
        Self::Error,
    >;

    /// Reads a UTC time.
    fn decode_utc_time(&mut self, tag: Tag) -> Result<UtcTime, Self::Error>;

    /// Reads a generalized time.
    fn decode_generalized_time(&mut self, tag: Tag) -> Result<GeneralizedTime, Self::Error>;

    /// Reads a sequence: `decode_fn` reads the fields of `T`, in declaration
    /// order and once each, and makes the value of them.
    fn decode_sequence<T: Constructed, F: FnOnce(&mut Self) -> Result<T, Self::Error>>(
        &mut self,
        tag: Tag,
        decode_fn: F,
    ) -> Result<T, Self::Error>
        requires
            forall|d: &mut Self| call_requires(decode_fn, (d,)),
    ;

    /// Whether the value of an optional field with `tag` comes next. Nothing
    /// is known of it unless the format says so.
    open spec fn field_present(pre: Self, tag: Tag) -> bool {
        true
    }

    /// What the format holds once it has passed over an optional field with
    /// `tag` that is absent. Nothing is known of it unless the format says
    /// so.
    open spec fn field_absent(pre: Self, tag: Tag, post: Self) -> bool {
        true
    }

    /// Reads an optional field. Where its value comes next it is read as
    /// the value reads itself under `tag` and `constraints`; where it does
    /// not, the field is passed over and `None` returned.
    fn decode_optional_with_tag_and_constraints<T: Decode<Self>>(
        &mut self,
        tag: Tag,
        constraints: Constraints,
    ) -> (r: Result<Option<T>, Self::Error>)
        ensures
            Self::field_present(*old(self), tag) ==> exists|
                d: &mut Self,
                inner: Result<T, Self::Error>,
            |
                {
                    &&& *d == *old(self)
                    &&& *final(d) == *final(self)
                    &&& #[trigger] call_ensures(
                        T::decode_with_tag_and_constraints,
                        (d, tag, constraints),
                        inner,
                    )
                    &&& match inner {
                        Ok(value) => r is Ok && r->Ok_0 == Some(value),
                        Err(error) => r is Err && r->Err_0 == error,
                    }
                },
            !Self::field_present(*old(self), tag) ==> r is Ok && r->Ok_0 is None
                && Self::field_absent(*old(self), tag, *final(self)),
    ;

    /// Reads an optional field under the type's own tag and constraints.
    fn decode_optional<T: Decode<Self>>(&mut self) -> (r: Result<Option<T>, Self::Error>)
        ensures
            exists|d: &mut Self, tag: Tag, constraints: Constraints|
                #![trigger call_ensures(T::tag, (), tag), call_ensures(Self::decode_optional_with_tag_and_constraints::<T>, (d, tag, constraints), r)]
                {
                    &&& *d == *old(self)
                    &&& *final(d) == *final(self)
                    &&& call_ensures(T::tag, (), tag)
                    &&& call_ensures(T::constraints, (), constraints)
                    &&& call_ensures(
                        Self::decode_optional_with_tag_and_constraints::<T>,
                        (d, tag, constraints),
                        r,
                    )
                },
    ;

    /// Reads an optional field under `tag` and the type's own constraints.
    fn decode_optional_with_tag<T: Decode<Self>>(&mut self, tag: Tag) -> (r: Result<
        Option<T>,
        Self::Error,
    >)
        ensures
            exists|d: &mut Self, constraints: Constraints|
                {
                    &&& *d == *old(self)
                    &&& *final(d) == *final(self)
                    &&& call_ensures(T::constraints, (), constraints)
                    &&& #[trigger] call_ensures(
                        Self::decode_optional_with_tag_and_constraints::<T>,
                        (d, tag, constraints),
                        r,
                    )
                },
    ;

    /// Reads an optional field under the type's own tag and `constraints`.
    fn decode_optional_with_constraints<T: Decode<Self>>(
        &mut self,
        constraints: Constraints,
    ) -> (r: Result<Option<T>, Self::Error>)
        ensures
            exists|d: &mut Self, tag: Tag|
                {
                    &&& *d == *old(self)
                    &&& *final(d) == *final(self)
                    &&& call_ensures(T::tag, (), tag)
                    &&& #[trigger] call_ensures(
                        Self::decode_optional_with_tag_and_constraints::<T>,
                        (d, tag, constraints),
                        r,
                    )
                },
    ;

    /// Reads a field with a declared default: the value where it is present,
    /// and what `default_fn` gives where it is absent.
    fn decode_default<T: Decode<Self>, F: FnOnce() -> T>(&mut self, default_fn: F) -> (r: Result<
        T,
        Self::Error,
    >)
        requires
            call_requires(default_fn, ()),
        default_ensures
            exists|d: &mut Self, field: Result<Option<T>, Self::Error>|
                {
                    &&& *d == *old(self)
                    &&& *final(d) == *final(self)
                    &&& #[trigger] call_ensures(Self::decode_optional::<T>, (d,), field)
                    &&& match field {
                        Err(error) => r is Err && r->Err_0 == error,
                        Ok(Some(value)) => r is Ok && r->Ok_0 == value,
                        Ok(None) => r is Ok && call_ensures(default_fn, (), r->Ok_0),
                    }
                },
    {
        match self.decode_optional::<T>() {
            Err(error) => Err(error),
            Ok(Some(value)) => Ok(value),
            Ok(None) => Ok(default_fn()),
        }
    }

    /// As `decode_default`, under `tag` and `constraints`.
    fn decode_default_with_tag_and_constraints<T: Decode<Self>, F: FnOnce() -> T>(
        &mut self,
        tag: Tag,
        constraints: Constraints,
        default_fn: F,
    ) -> (r: Result<T, Self::Error>)
        requires
            call_requires(default_fn, ()),
        default_ensures
            exists|d: &mut Self, field: Result<Option<T>, Self::Error>|
                {
                    &&& *d == *old(self)
                    &&& *final(d) == *final(self)
                    &&& #[trigger] call_ensures(
                        Self::decode_optional_with_tag_and_constraints::<T>,
                        (d, tag, constraints),
                        field,
                    )
                    &&& match field {
                        Err(error) => r is Err && r->Err_0 == error,
                        Ok(Some(value)) => r is Ok && r->Ok_0 == value,
                        Ok(None) => r is Ok && call_ensures(default_fn, (), r->Ok_0),
                    }
                },
    {
        match self.decode_optional_with_tag_and_constraints::<T>(tag, constraints) {
            Err(error) => Err(error),
            Ok(Some(value)) => Ok(value),
            Ok(None) => Ok(default_fn()),
        }
    }
}

/// A boolean is read by `decode_bool`.
impl<D: Decoder> Decode<D> for bool {
    fn decode_with_tag_and_constraints(
        decoder: &mut D,
        tag: Tag,
        constraints: Constraints,
    ) -> (r: Result<Self, D::Error>)
        ensures
            exists|d: &mut D|
                *d == *old(decoder) && *final(d) == *final(decoder) && #[trigger] call_ensures(
                    D::decode_bool,
                    (d, tag),
                    r,
                ),
    {
        decoder.decode_bool(tag)
    }
}

/// The null value is read by `decode_null`.
impl<D: Decoder> Decode<D> for () {
    fn decode_with_tag_and_constraints(
        decoder: &mut D,
        tag: Tag,
        constraints: Constraints,
    ) -> (r: Result<Self, D::Error>)
        ensures
            exists|d: &mut D|
                *d == *old(decoder) && *final(d) == *final(decoder) && #[trigger] call_ensures(
                    D::decode_null,
                    (d, tag),
                    r,
                ),
    {
        decoder.decode_null(tag)
    }
}

/// A big integer is read by `decode_integer`.
impl<D: Decoder> Decode<D> for num_bigint::BigInt {
    fn decode_with_tag_and_constraints(
        decoder: &mut D,
        tag: Tag,
        constraints: Constraints,
    ) -> (r: Result<Self, D::Error>)
        ensures
            exists|d: &mut D|
                *d == *old(decoder) && *final(d) == *final(decoder) && #[trigger] call_ensures(
                    D::decode_integer,
                    (d, tag, constraints),
                    r,
                ),
    {
        decoder.decode_integer(tag, constraints)
    }
}

/// A bit string is read by `decode_bit_string`.
impl<D: Decoder> Decode<D> for BitString {
    fn decode_with_tag_and_constraints(
        decoder: &mut D,
        tag: Tag,
        constraints: Constraints,
    ) -> (r: Result<Self, D::Error>)
        ensures
            exists|d: &mut D|
                *d == *old(decoder) && *final(d) == *final(decoder) && #[trigger] call_ensures(
                    D::decode_bit_string,
                    (d, tag, constraints),
                    r,
                ),
    {
        decoder.decode_bit_string(tag, constraints)
    }
}

/// An octet string is read by `decode_octet_string`.
impl<D: Decoder> Decode<D> for OctetString {
    fn decode_with_tag_and_constraints(
        decoder: &mut D,
        tag: Tag,
        constraints: Constraints,
    ) -> (r: Result<Self, D::Error>)
        ensures
            exists|d: &mut D, inner: Result<Vec<u8>, D::Error>|
                {
                    &&& *d == *old(decoder)
                    &&& *final(d) == *final(decoder)
                    &&& #[trigger] call_ensures(D::decode_octet_string, (d, tag, constraints), inner)
                    &&& match inner {
                        Ok(bytes) => r is Ok && r->Ok_0.bytes == bytes,
                        Err(error) => r is Err && r->Err_0 == error,
                    }
                },
    {
        match decoder.decode_octet_string(tag, constraints) {
            Ok(bytes) => Ok(OctetString { bytes }),
            Err(error) => Err(error),
        }
    }
}

/// A string is read by `decode_utf8_string`.
impl<D: Decoder> Decode<D> for String {
    fn decode_with_tag_and_constraints(
        decoder: &mut D,
        tag: Tag,
        constraints: Constraints,
    ) -> (r: Result<Self, D::Error>)
        ensures
            exists|d: &mut D|
                *d == *old(decoder) && *final(d) == *final(decoder) && #[trigger] call_ensures(
                    D::decode_utf8_string,
                    (d, tag, constraints),
                    r,
                ),
    {
        decoder.decode_utf8_string(tag, constraints)
    }
}

/// An object identifier is read by `decode_object_identifier`.
impl<D: Decoder> Decode<D> for ObjectIdentifier {
    fn decode_with_tag_and_constraints(
        decoder: &mut D,
        tag: Tag,
        constraints: Constraints,
    ) -> (r: Result<Self, D::Error>)
        ensures
            exists|d: &mut D|
                *d == *old(decoder) && *final(d) == *final(decoder) && #[trigger] call_ensures(
                    D::decode_object_identifier,
                    (d, tag),
                    r,
                ),
    {
        decoder.decode_object_identifier(tag)
    }
}

/// A general string is read by `decode_general_string`.
impl<D: Decoder> Decode<D> for GeneralString {
    fn decode_with_tag_and_constraints(
        decoder: &mut D,
        tag: Tag,
        constraints: Constraints,
    ) -> (r: Result<Self, D::Error>)
        ensures
            exists|d: &mut D|
                *d == *old(decoder) && *final(d) == *final(decoder) && #[trigger] call_ensures(
                    D::decode_general_string,
                    (d, tag, constraints),
                    r,
                ),
    {
        decoder.decode_general_string(tag, constraints)
    }
}

/// A visible string is read by `decode_visible_string`.
impl<D: Decoder> Decode<D> for VisibleString {
    fn decode_with_tag_and_constraints(
        decoder: &mut D,
        tag: Tag,
        constraints: Constraints,
    ) -> (r: Result<Self, D::Error>)
        ensures
            exists|d: &mut D|
                *d == *old(decoder) && *final(d) == *final(decoder) && #[trigger] call_ensures(
                    D::decode_visible_string,
                    (d, tag, constraints),
                    r,
                ),
    {
        decoder.decode_visible_string(tag, constraints)
    }
}

/// An IA5 string is read by `decode_ia5_string`.
impl<D: Decoder> Decode<D> for Ia5String {
    fn decode_with_tag_and_constraints(
        decoder: &mut D,
        tag: Tag,
        constraints: Constraints,
    ) -> (r: Result<Self, D::Error>)
        ensures
            exists|d: &mut D|
                *d == *old(decoder) && *final(d) == *final(decoder) && #[trigger] call_ensures(
                    D::decode_ia5_string,
                    (d, tag, constraints),
                    r,
                ),
    {
        decoder.decode_ia5_string(tag, constraints)
    }
}

/// A printable string is read by `decode_printable_string`.
impl<D: Decoder> Decode<D> for PrintableString {
    fn decode_with_tag_and_constraints(
        decoder: &mut D,
        tag: Tag,
        constraints: Constraints,
    ) -> (r: Result<Self, D::Error>)
        ensures
            exists|d: &mut D|
                *d == *old(decoder) && *final(d) == *final(decoder) && #[trigger] call_ensures(
                    D::decode_printable_string,
                    (d, tag, constraints),
                    r,
                ),
    {
        decoder.decode_printable_string(tag, constraints)
    }
}

/// A numeric string is read by `decode_numeric_string`.
impl<D: Decoder> Decode<D> for NumericString {
    fn decode_with_tag_and_constraints(
        decoder: &mut D,
        tag: Tag,
        constraints: Constraints,
    ) -> (r: Result<Self, D::Error>)
        ensures
            exists|d: &mut D|
                *d == *old(decoder) && *final(d) == *final(decoder) && #[trigger] call_ensures(
                    D::decode_numeric_string,
                    (d, tag, constraints),
                    r,
                ),
    {
        decoder.decode_numeric_string(tag, constraints)
    }
}

/// A teletex string is read by `decode_teletex_string`.
impl<D: Decoder> Decode<D> for TeletexString {
    fn decode_with_tag_and_constraints(
        decoder: &mut D,
        tag: Tag,
        constraints: Constraints,
    ) -> (r: Result<Self, D::Error>)
        ensures
            exists|d: &mut D|
                *d == *old(decoder) && *final(d) == *final(decoder) && #[trigger] call_ensures(
                    D::decode_teletex_string,
                    (d, tag, constraints),
                    r,
                ),
    {
        decoder.decode_teletex_string(tag, constraints)
    }
}

/// A BMP string is read by `decode_bmp_string`.
impl<D: Decoder> Decode<D> for BmpString {
    fn decode_with_tag_and_constraints(
        decoder: &mut D,
        tag: Tag,
        constraints: Constraints,
    ) -> (r: Result<Self, D::Error>)
        ensures
            exists|d: &mut D|
                *d == *old(decoder) && *final(d) == *final(decoder) && #[trigger] call_ensures(
                    D::decode_bmp_string,
                    (d, tag, constraints),
                    r,
                ),
    {
        decoder.decode_bmp_string(tag, constraints)
    }
}

/// A UTC time is read by `decode_utc_time`.
impl<D: Decoder> Decode<D> for UtcTime {
    fn decode_with_tag_and_constraints(
        decoder: &mut D,
        tag: Tag,
        constraints: Constraints,
    ) -> (r: Result<Self, D::Error>)
        ensures
            exists|d: &mut D|
                *d == *old(decoder) && *final(d) == *final(decoder) && #[trigger] call_ensures(
                    D::decode_utc_time,
                    (d, tag),
                    r,
                ),
    {
        decoder.decode_utc_time(tag)
    }
}

/// A generalized time is read by `decode_generalized_time`.
impl<D: Decoder> Decode<D> for GeneralizedTime {
    fn decode_with_tag_and_constraints(
        decoder: &mut D,
        tag: Tag,
        constraints: Constraints,
    ) -> (r: Result<Self, D::Error>)
        ensures
            exists|d: &mut D|
                *d == *old(decoder) && *final(d) == *final(decoder) && #[trigger] call_ensures(
                    D::decode_generalized_time,
                    (d, tag),
                    r,
                ),
    {
        decoder.decode_generalized_time(tag)
    }
}

/// An optional value is read as an optional field.
impl<D: Decoder, T: Decode<D>> Decode<D> for Option<T> {
    fn decode(decoder: &mut D) -> (r: Result<Self, D::Error>)
        ensures
            exists|d: &mut D|
                *d == *old(decoder) && *final(d) == *final(decoder) && #[trigger] call_ensures(
                    D::decode_optional::<T>,
                    (d,),
                    r,
                ),
    {
        decoder.decode_optional()
    }

    fn decode_with_tag(decoder: &mut D, tag: Tag) -> (r: Result<Self, D::Error>)
        ensures
            exists|d: &mut D|
                *d == *old(decoder) && *final(d) == *final(decoder) && #[trigger] call_ensures(
                    D::decode_optional_with_tag::<T>,
                    (d, tag),
                    r,
                ),
    {
        decoder.decode_optional_with_tag(tag)
    }

    fn decode_with_constraints(decoder: &mut D, constraints: Constraints) -> (r: Result<
        Self,
        D::Error,
    >)
        ensures
            exists|d: &mut D|
                *d == *old(decoder) && *final(d) == *final(decoder) && #[trigger] call_ensures(
                    D::decode_optional_with_constraints::<T>,
                    (d, constraints),
                    r,
                ),
    {
        decoder.decode_optional_with_constraints(constraints)
    }

    fn decode_with_tag_and_constraints(
        decoder: &mut D,
        tag: Tag,
        constraints: Constraints,
    ) -> (r: Result<Self, D::Error>)
        ensures
            exists|d: &mut D|
                *d == *old(decoder) && *final(d) == *final(decoder) && #[trigger] call_ensures(
                    D::decode_optional_with_tag_and_constraints::<T>,
                    (d, tag, constraints),
                    r,
                ),
    {
        decoder.decode_optional_with_tag_and_constraints(tag, constraints)
    }
}

} // verus!
