//! The encoding protocol: how a value presents itself to a data format.
//!
//! A value knows what it is; a format knows how each kind of value is
//! written. `Encode` is the value's side, `Encoder` the format's. Neither
//! side adds anything of its own: what a method of one side leaves behind is
//! what the method of the other side that it calls leaves behind, and its
//! contract says so by naming that call.

use crate::integer::{integer_from_i128, integer_value};
use crate::types::{
    name_view, Any, AsnType, BitString, BmpString, Choice, Codec, Constraints, Constructed, Enumerated,
    Explicit, GeneralString, GeneralizedTime, Ia5String, Implicit, NumericString,
    ObjectIdentifier, OctetString, PrintableString, SetOf, Tag, TeletexString, UtcTime,
    VisibleString,
};
use vstd::prelude::*;

verus! {

/// An error that a data format reports while encoding. The generic layer
/// raises its own errors through `custom`, so that they carry the codec.
pub trait Error: Sized {
    /// Whether this error is the generic one with message `msg`, raised while
    /// `codec` was at work. Nothing is known of it unless the type says so.
    open spec fn is_custom(&self, msg: Seq<char>, codec: Codec) -> bool {
        true
    }

    /// The generic error with message `msg`, raised while `codec` was at work.
    fn custom(msg: &str, codec: Codec) -> (e: Self)
        ensures
            e.is_custom(msg@, codec),
    ;
}

/// What the operations of one data format return.
pub trait Outcome: Sized {
    type Ok;

    type Error: Error;
}

/// Whether `r` succeeds where `q` does and fails with the error of `q`
/// where `q` fails.
pub open spec fn same_outcome<A, B, X>(q: Result<A, X>, r: Result<B, X>) -> bool {
    match q {
        Ok(_) => r is Ok,
        Err(e) => r is Err && r->Err_0 == e,
    }
}

/// Whether each state of `states` but the first comes from the one before
/// it by `step`, which is told the place of the step too.
pub open spec fn chained<S>(states: Seq<S>, step: spec_fn(int, S, S) -> bool) -> bool {
    forall|i: int| 0 <= i < states.len() - 1 ==> #[trigger] step(i, states[i], states[i + 1])
}

/// `q` without what it holds on success.
pub fn discard<A, X>(q: Result<A, X>) -> (r: Result<(), X>)
    ensures
        same_outcome(q, r),
{
    match q {
        Ok(_) => Ok(()),
        Err(e) => Err(e),
    }
}

/// A value that can be written in the data format `E`.
///
/// A type implements `encode_with_tag_and_constraints`. The other three
/// methods supply the type's own tag or constraints where the caller gives
/// none; a type that cannot be tagged implicitly, such as a choice,
/// implements `encode` too.
pub trait Encode<E: Outcome>: AsnType {
    /// Writes the value under its own tag and constraints.
    fn encode(&self, encoder: &mut E, identifier: Option<&'static str>) -> (r: Result<
        (),
        E::Error,
    >)
        default_ensures
            exists|e: &mut E, tag: Tag, constraints: Constraints|
                {
                    &&& *e == *old(encoder)
                    &&& *final(e) == *final(encoder)
                    &&& call_ensures(Self::tag, (), tag)
                    &&& call_ensures(Self::constraints, (), constraints)
                    &&& #[trigger] call_ensures(
                        Self::encode_with_tag_and_constraints,
                        (self, e, tag, constraints, identifier),
                        r,
                    )
                },
    {
        self.encode_with_tag_and_constraints(encoder, Self::tag(), Self::constraints(), identifier)
    }

    /// Writes the value under `tag` and its own constraints.
    fn encode_with_tag(
        &self,
        encoder: &mut E,
        tag: Tag,
        identifier: Option<&'static str>,
    ) -> (r: Result<(), E::Error>)
        default_ensures
            exists|e: &mut E, constraints: Constraints|
                {
                    &&& *e == *old(encoder)
                    &&& *final(e) == *final(encoder)
                    &&& call_ensures(Self::constraints, (), constraints)
                    &&& #[trigger] call_ensures(
                        Self::encode_with_tag_and_constraints,
                        (self, e, tag, constraints, identifier),
                        r,
                    )
                },
    {
        self.encode_with_tag_and_constraints(encoder, tag, Self::constraints(), identifier)
    }

    /// Writes the value under its own tag and `constraints`.
    fn encode_with_constraints(
        &self,
        encoder: &mut E,
        constraints: Constraints,
        identifier: Option<&'static str>,
    ) -> (r: Result<(), E::Error>)
        default_ensures
            exists|e: &mut E, tag: Tag|
                {
                    &&& *e == *old(encoder)
                    &&& *final(e) == *final(encoder)
                    &&& call_ensures(Self::tag, (), tag)
                    &&& #[trigger] call_ensures(
                        Self::encode_with_tag_and_constraints,
                        (self, e, tag, constraints, identifier),
                        r,
                    )
                },
    {
        self.encode_with_tag_and_constraints(encoder, Self::tag(), constraints, identifier)
    }

    /// Writes the value under `tag` and `constraints`.
    fn encode_with_tag_and_constraints(
        &self,
        encoder: &mut E,
        tag: Tag,
        constraints: Constraints,
        identifier: Option<&'static str>,
    ) -> (r: Result<(), E::Error>);
}

/// A data format that can write any value.
///
/// There is one operation for each built-in type, one for each kind of
/// constructed type, and a few for fields that may be absent. A constructed
/// type hands its fields over as a closure, which the format runs between
/// whatever it writes before and after them. What each operation writes is
/// for the format to say.
pub trait Encoder: Outcome {
    /// The codec that this encoder is for.
    fn codec(&self) -> Codec;

    /// Writes a value of an unknown type.
    fn encode_any(&mut self, tag: Tag, value: &Any) -> Result<Self::Ok, Self::Error>;

    /// Writes a boolean.
    fn encode_bool(&mut self, tag: Tag, value: bool, identifier: Option<&'static str>) -> Result<
        Self::Ok,
        Self::Error,
    >;

    /// Writes a bit string.
    fn encode_bit_string(
        &mut self,
        tag: Tag,
        constraints: Constraints,
        value: &[bool],
        identifier: Option<&'static str>,
    ) -> Result<Self::Ok, Self::Error>;

    /// Writes an enumerated value.
    fn encode_enumerated<N: Enumerated>(
        &mut self,
        tag: Tag,
        value: &N,
        identifier: Option<&'static str>,
    ) -> Result<Self::Ok, Self::Error>;

    /// Writes an object identifier.
    fn encode_object_identifier(
        &mut self,
        tag: Tag,
        value: &[u32],
        identifier: Option<&'static str>,
    ) -> Result<Self::Ok, Self::Error>;

    /// Writes an integer.
    fn encode_integer(
        &mut self,
        tag: Tag,
        constraints: Constraints,
        value: &num_bigint::BigInt,
        identifier: Option<&'static str>,
    ) -> Result<Self::Ok, Self::Error>;

    /// Writes the null value.
    fn encode_null(&mut self, tag: Tag, identifier: Option<&'static str>) -> Result<
        Self::Ok,
        Self::Error,
    >;

    /// Writes an octet string.
    fn encode_octet_string(
        &mut self,
        tag: Tag,
        constraints: Constraints,
        value: &[u8],
        identifier: Option<&'static str>,
    ) -> Result<Self::Ok, Self::Error>;

    /// Writes a general string.
    fn encode_general_string(
        &mut self,
        tag: Tag,
        constraints: Constraints,
        value: &GeneralString,
        identifier: Option<&'static str>,
    ) -> Result<Self::Ok, Self::Error>;

    /// Writes a UTF-8 string.
    fn encode_utf8_string(
        &mut self,
        tag: Tag,
        constraints: Constraints,
        value: &str,
        identifier: Option<&'static str>,
    ) -> Result<Self::Ok, Self::Error>;

    /// Writes a visible string.
    fn encode_visible_string(
        &mut self,
        tag: Tag,
        constraints: Constraints,
        value: &VisibleString,
        identifier: Option<&'static str>,
    ) -> Result<Self::Ok, Self::Error>;

    /// Writes an IA5 string.
    fn encode_ia5_string(
        &mut self,
        tag: Tag,
        constraints: Constraints,
        value: &Ia5String,
        identifier: Option<&'static str>,
    ) -> Result<Self::Ok, Self::Error>;

    /// Writes a printable string.
    fn encode_printable_string(
        &mut self,
        tag: Tag,
        constraints: Constraints,
        value: &PrintableString,
        identifier: Option<&'static str>,
    ) -> Result<Self::Ok, Self::Error>;

    /// Writes a numeric string.
    fn encode_numeric_string(
        &mut self,
        tag: Tag,
        constraints: Constraints,
        value: &NumericString,
        identifier: Option<&'static str>,
    ) -> Result<Self::Ok, Self::Error>;

    /// Writes a teletex string.
    fn encode_teletex_string(
        &mut self,
        tag: Tag,
        constraints: Constraints,
        value: &TeletexString,
        identifier: Option<&'static str>,
    ) -> Result<Self::Ok, Self::Error>;

    /// Writes a BMP string.
    fn encode_bmp_string(
        &mut self,
        tag: Tag,
        constraints: Constraints,
        value: &BmpString,
        identifier: Option<&'static str>,
    ) -> Result<Self::Ok, Self::Error>;

    /// Writes a generalized time.
    fn encode_generalized_time(
        &mut self,
        tag: Tag,
        value: &GeneralizedTime,
        identifier: Option<&'static str>,
    ) -> Result<Self::Ok, Self::Error>;

    /// Writes a UTC time.
    fn encode_utc_time(
        &mut self,
        tag: Tag,
        value: &UtcTime,
        identifier: Option<&'static str>,
    ) -> Result<Self::Ok, Self::Error>;

    /// What the format has written and holds when it has opened the wrapper
    /// for a value under the explicit tag `tag`. Nothing is known of it
    /// unless the format says so.
    open spec fn prefix_opened(
        pre: Self,
        tag: Tag,
        identifier: Option<Seq<char>>,
        opened: Self,
    ) -> bool {
        true
    }

    /// What the format has written and holds, and what it returns, when it
    /// has closed the wrapper for a value under the explicit tag `tag`, after
    /// the value left `written` and returned `inner`. Nothing is known of it
    /// unless the format says so.
    open spec fn prefix_closed(
        written: Self,
        tag: Tag,
        inner: Result<(), Self::Error>,
        post: Self,
        r: Result<Self::Ok, Self::Error>,
    ) -> bool {
        true
    }

    /// Writes a value wrapped under `tag`, beneath which it keeps its own:
    /// the format opens the wrapper, the value writes itself as it does
    /// alone, and the format closes the wrapper.
    fn encode_explicit_prefix<V: Encode<Self>>(
        &mut self,
        tag: Tag,
        value: &V,
        identifier: Option<&'static str>,
    ) -> (r: Result<Self::Ok, Self::Error>)
        ensures
            exists|e: &mut Self, inner: Result<(), Self::Error>|
                {
                    &&& Self::prefix_opened(*old(self), tag, name_view(identifier), *e)
                    &&& #[trigger] call_ensures(V::encode, (value, e, identifier), inner)
                    &&& Self::prefix_closed(*final(e), tag, inner, *final(self), r)
                },
    ;

    /// Writes a sequence: `encoder_scope` writes the fields of `C`, in
    /// declaration order and once each.
    fn encode_sequence<C: Constructed, F: FnOnce(&mut Self) -> Result<(), Self::Error>>(
        &mut self,
        tag: Tag,
        encoder_scope: F,
        identifier: Option<&'static str>,
    ) -> Result<Self::Ok, Self::Error>
        requires
            forall|e: &mut Self| call_requires(encoder_scope, (e,)),
    ;

    /// Whether the format refuses to open a collection, and returns `r`
    /// without writing any of its values; `set` tells a set from a sequence.
    /// Nothing is known of it unless the format says so.
    open spec fn collection_refused(
        pre: Self,
        set: bool,
        tag: Tag,
        identifier: Option<Seq<char>>,
        r: Result<Self::Ok, Self::Error>,
    ) -> bool {
        true
    }

    /// What the format has written and holds when it has opened a
    /// collection. Nothing is known of it unless the format says so.
    open spec fn collection_opened(
        pre: Self,
        set: bool,
        tag: Tag,
        identifier: Option<Seq<char>>,
        opened: Self,
    ) -> bool {
        true
    }

    /// What the format has written and holds, and what it returns, when it
    /// has closed a collection whose values left `written`. Nothing is known
    /// of it unless the format says so.
    open spec fn collection_closed(
        pre: Self,
        set: bool,
        tag: Tag,
        identifier: Option<Seq<char>>,
        written: Self,
        post: Self,
        r: Result<Self::Ok, Self::Error>,
    ) -> bool {
        true
    }

    /// Writes a sequence of values of one type: the format opens the
    /// collection, each value writes itself as it does alone, in order and
    /// up to the first that fails, and the format closes the collection.
    fn encode_sequence_of<V: Encode<Self>>(
        &mut self,
        tag: Tag,
        value: &[V],
        constraints: Constraints,
        identifier: Option<&'static str>,
    ) -> (r: Result<Self::Ok, Self::Error>)
        ensures
            Self::collection_refused(*old(self), false, tag, name_view(identifier), r) || exists|
                states: Seq<Self>,
            |
                #![trigger states.len()]
                {
                    &&& 1 <= states.len() <= value@.len() + 1
                    &&& Self::collection_opened(
                        *old(self),
                        false,
                        tag,
                        name_view(identifier),
                        states[0],
                    )
                    &&& chained(
                        states,
                        |i: int, from: Self, to: Self|
                            exists|e: &mut Self, inner: Result<(), Self::Error>|
                                {
                                    &&& *e == from
                                    &&& *final(e) == to
                                    &&& #[trigger] call_ensures(
                                        V::encode,
                                        (&value@[i], e, None::<&'static str>),
                                        inner,
                                    )
                                    &&& inner is Ok
                                },
                    )
                    &&& if states.len() == value@.len() + 1 {
                        Self::collection_closed(
                            *old(self),
                            false,
                            tag,
                            name_view(identifier),
                            states.last(),
                            *final(self),
                            r,
                        )
                    } else {
                        exists|e: &mut Self, inner: Result<(), Self::Error>|
                            {
                                &&& *e == states.last()
                                &&& #[trigger] call_ensures(
                                    V::encode,
                                    (&value@[states.len() - 1], e, None::<&'static str>),
                                    inner,
                                )
                                &&& inner is Err
                                &&& r is Err
                                &&& r->Err_0 == inner->Err_0
                            }
                    }
                },
    ;

    /// Writes a set: `value` writes the fields of `C`, once each.
    fn encode_set<C: Constructed, F: FnOnce(&mut Self) -> Result<(), Self::Error>>(
        &mut self,
        tag: Tag,
        value: F,
        identifier: Option<&'static str>,
    ) -> Result<Self::Ok, Self::Error>
        requires
            forall|e: &mut Self| call_requires(value, (e,)),
    ;

    /// Writes a set of values of one type: the format opens the
    /// collection, each value writes itself as it does alone, in order and
    /// up to the first that fails, and the format closes the collection.
    fn encode_set_of<V: Encode<Self>>(
        &mut self,
        tag: Tag,
        value: &SetOf<V>,
        constraints: Constraints,
        identifier: Option<&'static str>,
    ) -> (r: Result<Self::Ok, Self::Error>)
        ensures
            Self::collection_refused(*old(self), true, tag, name_view(identifier), r) || exists|
                states: Seq<Self>,
            |
                #![trigger states.len()]
                {
                    &&& 1 <= states.len() <= value.items@.len() + 1
                    &&& Self::collection_opened(
                        *old(self),
                        true,
                        tag,
                        name_view(identifier),
                        states[0],
                    )
                    &&& chained(
                        states,
                        |i: int, from: Self, to: Self|
                            exists|e: &mut Self, inner: Result<(), Self::Error>|
                                {
                                    &&& *e == from
                                    &&& *final(e) == to
                                    &&& #[trigger] call_ensures(
                                        V::encode,
                                        (&value.items@[i], e, None::<&'static str>),
                                        inner,
                                    )
                                    &&& inner is Ok
                                },
                    )
                    &&& if states.len() == value.items@.len() + 1 {
                        Self::collection_closed(
                            *old(self),
                            true,
                            tag,
                            name_view(identifier),
                            states.last(),
                            *final(self),
                            r,
                        )
                    } else {
                        exists|e: &mut Self, inner: Result<(), Self::Error>|
                            {
                                &&& *e == states.last()
                                &&& #[trigger] call_ensures(
                                    V::encode,
                                    (&value.items@[states.len() - 1], e, None::<&'static str>),
                                    inner,
                                )
                                &&& inner is Err
                                &&& r is Err
                                &&& r->Err_0 == inner->Err_0
                            }
                    }
                },
    ;

    /// Writes the value of a field, or nothing where the value is the
    /// default of its type. The value is compared with the default each
    /// time: equal, the field is written as an absent one; unequal, as a
    /// present one.
    fn encode_or_default<V: Encode<Self> + Default + PartialEq>(
        &mut self,
        value: &V,
        identifier: Option<&'static str>,
    ) -> (r: Result<Self::Ok, Self::Error>)
        default_ensures
            exists|d: V, differs: bool|
                {
                    &&& call_ensures(V::default, (), d)
                    &&& #[trigger] call_ensures(V::ne, (value, &d), differs)
                    &&& differs ==> exists|e: &mut Self|
                        *e == *old(self) && *final(e) == *final(self) && #[trigger] call_ensures(
                            Self::encode_some::<V>,
                            (e, value, identifier),
                            r,
                        )
                    &&& !differs ==> exists|e: &mut Self|
                        *e == *old(self) && *final(e) == *final(self) && #[trigger] call_ensures(
                            Self::encode_none::<V>,
                            (e,),
                            r,
                        )
                },
    {
        let d = V::default();
        let differs = *value != d;
        if differs {
            self.encode_some(value, identifier)
        } else {
            self.encode_none::<V>()
        }
    }

    /// As `encode_or_default`, with `tag` for the value where it is written.
    fn encode_with_tag_or_default<V: Encode<Self> + Default + PartialEq>(
        &mut self,
        tag: Tag,
        value: &V,
        identifier: Option<&'static str>,
    ) -> (r: Result<Self::Ok, Self::Error>)
        default_ensures
            exists|d: V, differs: bool|
                {
                    &&& call_ensures(V::default, (), d)
                    &&& #[trigger] call_ensures(V::ne, (value, &d), differs)
                    &&& differs ==> exists|e: &mut Self|
                        *e == *old(self) && *final(e) == *final(self) && #[trigger] call_ensures(
                            Self::encode_some_with_tag::<V>,
                            (e, tag, value, identifier),
                            r,
                        )
                    &&& !differs ==> exists|e: &mut Self|
                        *e == *old(self) && *final(e) == *final(self) && #[trigger] call_ensures(
                            Self::encode_none::<V>,
                            (e,),
                            r,
                        )
                },
    {
        let d = V::default();
        let differs = *value != d;
        if differs {
            self.encode_some_with_tag(tag, value, identifier)
        } else {
            self.encode_none::<V>()
        }
    }

    /// Writes the value of an optional field that is present: as the value
    /// writes itself.
    fn encode_some<V: Encode<Self>>(
        &mut self,
        value: &V,
        identifier: Option<&'static str>,
    ) -> (r: Result<Self::Ok, Self::Error>)
        ensures
            exists|e: &mut Self, inner: Result<(), Self::Error>|
                {
                    &&& *e == *old(self)
                    &&& *final(e) == *final(self)
                    &&& #[trigger] call_ensures(V::encode, (value, e, identifier), inner)
                    &&& same_outcome(inner, r)
                },
    ;

    /// Writes the value of an optional field that is present, under `tag`:
    /// as under `tag` and no constraints.
    fn encode_some_with_tag<V: Encode<Self>>(
        &mut self,
        tag: Tag,
        value: &V,
        identifier: Option<&'static str>,
    ) -> (r: Result<Self::Ok, Self::Error>)
        ensures
            exists|e: &mut Self|
                *e == *old(self) && *final(e) == *final(self) && #[trigger] call_ensures(
                    Self::encode_some_with_tag_and_constraints::<V>,
                    (e, tag, Constraints::none(), value, identifier),
                    r,
                ),
    {
        self.encode_some_with_tag_and_constraints(tag, Constraints::none(), value, identifier)
    }

    /// Writes the value of an optional field that is present, under `tag`
    /// and `constraints`: as the value writes itself under them.
    fn encode_some_with_tag_and_constraints<V: Encode<Self>>(
        &mut self,
        tag: Tag,
        constraints: Constraints,
        value: &V,
        identifier: Option<&'static str>,
    ) -> (r: Result<Self::Ok, Self::Error>)
        ensures
            exists|e: &mut Self, inner: Result<(), Self::Error>|
                {
                    &&& *e == *old(self)
                    &&& *final(e) == *final(self)
                    &&& #[trigger] call_ensures(
                        V::encode_with_tag_and_constraints,
                        (value, e, tag, constraints, identifier),
                        inner,
                    )
                    &&& same_outcome(inner, r)
                },
    ;

    /// Writes an optional field of type `V` that is absent: as an absent
    /// field with the tag of `V`.
    fn encode_none<V: Encode<Self>>(&mut self) -> (r: Result<Self::Ok, Self::Error>)
        ensures
            exists|e: &mut Self, tag: Tag|
                {
                    &&& *e == *old(self)
                    &&& *final(e) == *final(self)
                    &&& call_ensures(V::tag, (), tag)
                    &&& #[trigger] call_ensures(Self::encode_none_with_tag, (e, tag), r)
                },
    ;

    /// Writes an optional field with `tag` that is absent.
    fn encode_none_with_tag(&mut self, tag: Tag) -> Result<Self::Ok, Self::Error>;

    /// Writes the value of a field with a declared default, or nothing where
    /// the value is that default. The value is compared with what `default`
    /// gives each time: equal, the field is written as an absent one;
    /// unequal, as a present one.
    fn encode_default<V: Encode<Self> + PartialEq, D: FnOnce() -> V>(
        &mut self,
        value: &V,
        identifier: Option<&'static str>,
        default: D,
    ) -> (r: Result<Self::Ok, Self::Error>)
        requires
            call_requires(default, ()),
        default_ensures
            exists|d: V, differs: bool|
                {
                    &&& call_ensures(default, (), d)
                    &&& #[trigger] call_ensures(V::ne, (value, &d), differs)
                    &&& differs ==> exists|e: &mut Self|
                        *e == *old(self) && *final(e) == *final(self) && #[trigger] call_ensures(
                            Self::encode_some::<V>,
                            (e, value, identifier),
                            r,
                        )
                    &&& !differs ==> exists|e: &mut Self|
                        *e == *old(self) && *final(e) == *final(self) && #[trigger] call_ensures(
                            Self::encode_none::<V>,
                            (e,),
                            r,
                        )
                },
    {
        if *value != default() {
            self.encode_some(value, identifier)
        } else {
            self.encode_none::<V>()
        }
    }

    /// As `encode_default`, with `tag` for the field.
    fn encode_default_with_tag<V: Encode<Self> + PartialEq, D: FnOnce() -> V>(
        &mut self,
        tag: Tag,
        value: &V,
        identifier: Option<&'static str>,
        default: D,
    ) -> (r: Result<Self::Ok, Self::Error>)
        requires
            call_requires(default, ()),
        default_ensures
            exists|d: V, differs: bool|
                {
                    &&& call_ensures(default, (), d)
                    &&& #[trigger] call_ensures(V::ne, (value, &d), differs)
                    &&& differs ==> exists|e: &mut Self|
                        *e == *old(self) && *final(e) == *final(self) && #[trigger] call_ensures(
                            Self::encode_some_with_tag::<V>,
                            (e, tag, value, identifier),
                            r,
                        )
                    &&& !differs ==> exists|e: &mut Self|
                        *e == *old(self) && *final(e) == *final(self) && #[trigger] call_ensures(
                            Self::encode_none_with_tag,
                            (e, tag),
                            r,
                        )
                },
    {
        if *value != default() {
            self.encode_some_with_tag(tag, value, identifier)
        } else {
            self.encode_none_with_tag(tag)
        }
    }

    /// As `encode_default`, with `tag` and `constraints` for the field.
    fn encode_default_with_tag_and_constraints<V: Encode<Self> + PartialEq, D: FnOnce() -> V>(
        &mut self,
        tag: Tag,
        constraints: Constraints,
        value: &V,
        identifier: Option<&'static str>,
        default: D,
    ) -> (r: Result<Self::Ok, Self::Error>)
        requires
            call_requires(default, ()),
        default_ensures
            exists|d: V, differs: bool|
                {
                    &&& call_ensures(default, (), d)
                    &&& #[trigger] call_ensures(V::ne, (value, &d), differs)
                    &&& differs ==> exists|e: &mut Self|
                        *e == *old(self) && *final(e) == *final(self) && #[trigger] call_ensures(
                            Self::encode_some_with_tag_and_constraints::<V>,
                            (e, tag, constraints, value, identifier),
                            r,
                        )
                    &&& !differs ==> exists|e: &mut Self|
                        *e == *old(self) && *final(e) == *final(self) && #[trigger] call_ensures(
                            Self::encode_none_with_tag,
                            (e, tag),
                            r,
                        )
                },
    {
        if *value != default() {
            self.encode_some_with_tag_and_constraints(tag, constraints, value, identifier)
        } else {
            self.encode_none_with_tag(tag)
        }
    }

    /// As `encode_default`, with the type's own tag and `constraints` for
    /// the field.
    fn encode_default_with_constraints<V: Encode<Self> + PartialEq, D: FnOnce() -> V>(
        &mut self,
        constraints: Constraints,
        value: &V,
        identifier: Option<&'static str>,
        default: D,
    ) -> (r: Result<Self::Ok, Self::Error>)
        requires
            call_requires(default, ()),
        default_ensures
            exists|d: V, differs: bool, tag: Tag|
                #![trigger call_ensures(V::ne, (value, &d), differs), call_ensures(V::tag, (), tag)]
                {
                    &&& call_ensures(default, (), d)
                    &&& call_ensures(V::tag, (), tag)
                    &&& call_ensures(V::ne, (value, &d), differs)
                    &&& differs ==> exists|e: &mut Self|
                        *e == *old(self) && *final(e) == *final(self) && #[trigger] call_ensures(
                            Self::encode_some_with_tag_and_constraints::<V>,
                            (e, tag, constraints, value, identifier),
                            r,
                        )
                    &&& !differs ==> exists|e: &mut Self|
                        *e == *old(self) && *final(e) == *final(self) && #[trigger] call_ensures(
                            Self::encode_none_with_tag,
                            (e, tag),
                            r,
                        )
                },
    {
        let tag = V::tag();
        if *value != default() {
            self.encode_some_with_tag_and_constraints(tag, constraints, value, identifier)
        } else {
            self.encode_none_with_tag(tag)
        }
    }

    /// Writes a choice: `encode_fn` writes the alternative that is present
    /// and returns its tag.
    fn encode_choice<V: Encode<Self> + Choice, F: FnOnce(&mut Self) -> Result<Tag, Self::Error>>(
        &mut self,
        constraints: Constraints,
        tag: Tag,
        encode_fn: F,
        identifier: Option<&'static str>,
    ) -> Result<Self::Ok, Self::Error>
        requires
            forall|e: &mut Self| call_requires(encode_fn, (e,)),
    ;

    /// Writes a field that a later revision of its type added.
    fn encode_extension_addition<V: Encode<Self>>(
        &mut self,
        tag: Tag,
        constraints: Constraints,
        value: V,
    ) -> Result<Self::Ok, Self::Error>;

    /// Writes a group of fields that a later revision of their type added,
    /// or nothing where the group is absent.
    fn encode_extension_addition_group<V: Encode<Self> + Constructed>(
        &mut self,
        value: Option<&V>,
    ) -> Result<Self::Ok, Self::Error>;
}

// ---------------------------------------------------------------------------
// The built-in types
// ---------------------------------------------------------------------------
impl AsnType for () {
    fn tag() -> (tag: Tag)
        ensures
            tag == Tag::universal(5),
    {
        Tag::universal(5)
    }
}

/// The null value is written by `encode_null`.
impl<E: Encoder> Encode<E> for () {
    fn encode_with_tag_and_constraints(
        &self,
        encoder: &mut E,
        tag: Tag,
        constraints: Constraints,
        identifier: Option<&'static str>,
    ) -> (r: Result<(), E::Error>)
        ensures
            exists|e: &mut E, q: Result<E::Ok, E::Error>|
                {
                    &&& *e == *old(encoder)
                    &&& *final(e) == *final(encoder)
                    &&& #[trigger] call_ensures(E::encode_null, (e, tag, identifier), q)
                    &&& same_outcome(q, r)
                },
    {
        discard(encoder.encode_null(tag, identifier))
    }
}

impl AsnType for bool {
    fn tag() -> (tag: Tag)
        ensures
            tag == Tag::universal(1),
    {
        Tag::universal(1)
    }
}

/// A boolean is written by `encode_bool`.
impl<E: Encoder> Encode<E> for bool {
    fn encode_with_tag_and_constraints(
        &self,
        encoder: &mut E,
        tag: Tag,
        constraints: Constraints,
        identifier: Option<&'static str>,
    ) -> (r: Result<(), E::Error>)
        ensures
            exists|e: &mut E, q: Result<E::Ok, E::Error>|
                {
                    &&& *e == *old(encoder)
                    &&& *final(e) == *final(encoder)
                    &&& #[trigger] call_ensures(E::encode_bool, (e, tag, *self, identifier), q)
                    &&& same_outcome(q, r)
                },
    {
        discard(encoder.encode_bool(tag, *self, identifier))
    }
}

impl AsnType for i8 {
    fn tag() -> (tag: Tag)
        ensures
            tag == Tag::universal(2),
    {
        Tag::universal(2)
    }
}

/// An `i8` is written by `encode_integer`, as the big integer of its value.
impl<E: Encoder> Encode<E> for i8 {
    fn encode_with_tag_and_constraints(
        &self,
        encoder: &mut E,
        tag: Tag,
        constraints: Constraints,
        identifier: Option<&'static str>,
    ) -> (r: Result<(), E::Error>)
        ensures
            exists|e: &mut E, q: Result<E::Ok, E::Error>, big: num_bigint::BigInt|
                {
                    &&& *e == *old(encoder)
                    &&& *final(e) == *final(encoder)
                    &&& integer_value(big) == *self
                    &&& #[trigger] call_ensures(E::encode_integer, (e, tag, constraints, &big, identifier), q)
                    &&& same_outcome(q, r)
                },
    {
        let big = integer_from_i128(*self as i128);
        discard(encoder.encode_integer(tag, constraints, &big, identifier))
    }
}

impl AsnType for i16 {
    fn tag() -> (tag: Tag)
        ensures
            tag == Tag::universal(2),
    {
        Tag::universal(2)
    }
}

/// An `i16` is written by `encode_integer`, as the big integer of its value.
impl<E: Encoder> Encode<E> for i16 {
    fn encode_with_tag_and_constraints(
        &self,
        encoder: &mut E,
        tag: Tag,
        constraints: Constraints,
        identifier: Option<&'static str>,
    ) -> (r: Result<(), E::Error>)
        ensures
            exists|e: &mut E, q: Result<E::Ok, E::Error>, big: num_bigint::BigInt|
                {
                    &&& *e == *old(encoder)
                    &&& *final(e) == *final(encoder)
                    &&& integer_value(big) == *self
                    &&& #[trigger] call_ensures(E::encode_integer, (e, tag, constraints, &big, identifier), q)
                    &&& same_outcome(q, r)
                },
    {
        let big = integer_from_i128(*self as i128);
        discard(encoder.encode_integer(tag, constraints, &big, identifier))
    }
}

impl AsnType for i32 {
    fn tag() -> (tag: Tag)
        ensures
            tag == Tag::universal(2),
    {
        Tag::universal(2)
    }
}

/// An `i32` is written by `encode_integer`, as the big integer of its value.
impl<E: Encoder> Encode<E> for i32 {
    fn encode_with_tag_and_constraints(
        &self,
        encoder: &mut E,
        tag: Tag,
        constraints: Constraints,
        identifier: Option<&'static str>,
    ) -> (r: Result<(), E::Error>)
        ensures
            exists|e: &mut E, q: Result<E::Ok, E::Error>, big: num_bigint::BigInt|
                {
                    &&& *e == *old(encoder)
                    &&& *final(e) == *final(encoder)
                    &&& integer_value(big) == *self
                    &&& #[trigger] call_ensures(E::encode_integer, (e, tag, constraints, &big, identifier), q)
                    &&& same_outcome(q, r)
                },
    {
        let big = integer_from_i128(*self as i128);
        discard(encoder.encode_integer(tag, constraints, &big, identifier))
    }
}

impl AsnType for i64 {
    fn tag() -> (tag: Tag)
        ensures
            tag == Tag::universal(2),
    {
        Tag::universal(2)
    }
}

/// An `i64` is written by `encode_integer`, as the big integer of its value.
impl<E: Encoder> Encode<E> for i64 {
    fn encode_with_tag_and_constraints(
        &self,
        encoder: &mut E,
        tag: Tag,
        constraints: Constraints,
        identifier: Option<&'static str>,
    ) -> (r: Result<(), E::Error>)
        ensures
            exists|e: &mut E, q: Result<E::Ok, E::Error>, big: num_bigint::BigInt|
                {
                    &&& *e == *old(encoder)
                    &&& *final(e) == *final(encoder)
                    &&& integer_value(big) == *self
                    &&& #[trigger] call_ensures(E::encode_integer, (e, tag, constraints, &big, identifier), q)
                    &&& same_outcome(q, r)
                },
    {
        let big = integer_from_i128(*self as i128);
        discard(encoder.encode_integer(tag, constraints, &big, identifier))
    }
}

impl AsnType for isize {
    fn tag() -> (tag: Tag)
        ensures
            tag == Tag::universal(2),
    {
        Tag::universal(2)
    }
}

/// An `isize` is written by `encode_integer`, as the big integer of its value.
impl<E: Encoder> Encode<E> for isize {
    fn encode_with_tag_and_constraints(
        &self,
        encoder: &mut E,
        tag: Tag,
        constraints: Constraints,
        identifier: Option<&'static str>,
    ) -> (r: Result<(), E::Error>)
        ensures
            exists|e: &mut E, q: Result<E::Ok, E::Error>, big: num_bigint::BigInt|
                {
                    &&& *e == *old(encoder)
                    &&& *final(e) == *final(encoder)
                    &&& integer_value(big) == *self
                    &&& #[trigger] call_ensures(E::encode_integer, (e, tag, constraints, &big, identifier), q)
                    &&& same_outcome(q, r)
                },
    {
        let big = integer_from_i128(*self as i128);
        discard(encoder.encode_integer(tag, constraints, &big, identifier))
    }
}

impl AsnType for u8 {
    fn tag() -> (tag: Tag)
        ensures
            tag == Tag::universal(2),
    {
        Tag::universal(2)
    }
}

/// An `u8` is written by `encode_integer`, as the big integer of its value.
impl<E: Encoder> Encode<E> for u8 {
    fn encode_with_tag_and_constraints(
        &self,
        encoder: &mut E,
        tag: Tag,
        constraints: Constraints,
        identifier: Option<&'static str>,
    ) -> (r: Result<(), E::Error>)
        ensures
            exists|e: &mut E, q: Result<E::Ok, E::Error>, big: num_bigint::BigInt|
                {
                    &&& *e == *old(encoder)
                    &&& *final(e) == *final(encoder)
                    &&& integer_value(big) == *self
                    &&& #[trigger] call_ensures(E::encode_integer, (e, tag, constraints, &big, identifier), q)
                    &&& same_outcome(q, r)
                },
    {
        let big = integer_from_i128(*self as i128);
        discard(encoder.encode_integer(tag, constraints, &big, identifier))
    }
}

impl AsnType for u16 {
    fn tag() -> (tag: Tag)
        ensures
            tag == Tag::universal(2),
    {
        Tag::universal(2)
    }
}

/// An `u16` is written by `encode_integer`, as the big integer of its value.
impl<E: Encoder> Encode<E> for u16 {
    fn encode_with_tag_and_constraints(
        &self,
        encoder: &mut E,
        tag: Tag,
        constraints: Constraints,
        identifier: Option<&'static str>,
    ) -> (r: Result<(), E::Error>)
        ensures
            exists|e: &mut E, q: Result<E::Ok, E::Error>, big: num_bigint::BigInt|
                {
                    &&& *e == *old(encoder)
                    &&& *final(e) == *final(encoder)
                    &&& integer_value(big) == *self
                    &&& #[trigger] call_ensures(E::encode_integer, (e, tag, constraints, &big, identifier), q)
                    &&& same_outcome(q, r)
                },
    {
        let big = integer_from_i128(*self as i128);
        discard(encoder.encode_integer(tag, constraints, &big, identifier))
    }
}

impl AsnType for u32 {
    fn tag() -> (tag: Tag)
        ensures
            tag == Tag::universal(2),
    {
        Tag::universal(2)
    }
}

/// An `u32` is written by `encode_integer`, as the big integer of its value.
impl<E: Encoder> Encode<E> for u32 {
    fn encode_with_tag_and_constraints(
        &self,
        encoder: &mut E,
        tag: Tag,
        constraints: Constraints,
        identifier: Option<&'static str>,
    ) -> (r: Result<(), E::Error>)
        ensures
            exists|e: &mut E, q: Result<E::Ok, E::Error>, big: num_bigint::BigInt|
                {
                    &&& *e == *old(encoder)
                    &&& *final(e) == *final(encoder)
                    &&& integer_value(big) == *self
                    &&& #[trigger] call_ensures(E::encode_integer, (e, tag, constraints, &big, identifier), q)
                    &&& same_outcome(q, r)
                },
    {
        let big = integer_from_i128(*self as i128);
        discard(encoder.encode_integer(tag, constraints, &big, identifier))
    }
}

impl AsnType for u64 {
    fn tag() -> (tag: Tag)
        ensures
            tag == Tag::universal(2),
    {
        Tag::universal(2)
    }
}

/// An `u64` is written by `encode_integer`, as the big integer of its value.
impl<E: Encoder> Encode<E> for u64 {
    fn encode_with_tag_and_constraints(
        &self,
        encoder: &mut E,
        tag: Tag,
        constraints: Constraints,
        identifier: Option<&'static str>,
    ) -> (r: Result<(), E::Error>)
        ensures
            exists|e: &mut E, q: Result<E::Ok, E::Error>, big: num_bigint::BigInt|
                {
                    &&& *e == *old(encoder)
                    &&& *final(e) == *final(encoder)
                    &&& integer_value(big) == *self
                    &&& #[trigger] call_ensures(E::encode_integer, (e, tag, constraints, &big, identifier), q)
                    &&& same_outcome(q, r)
                },
    {
        let big = integer_from_i128(*self as i128);
        discard(encoder.encode_integer(tag, constraints, &big, identifier))
    }
}

impl AsnType for usize {
    fn tag() -> (tag: Tag)
        ensures
            tag == Tag::universal(2),
    {
        Tag::universal(2)
    }
}

/// An `usize` is written by `encode_integer`, as the big integer of its value.
impl<E: Encoder> Encode<E> for usize {
    fn encode_with_tag_and_constraints(
        &self,
        encoder: &mut E,
        tag: Tag,
        constraints: Constraints,
        identifier: Option<&'static str>,
    ) -> (r: Result<(), E::Error>)
        ensures
            exists|e: &mut E, q: Result<E::Ok, E::Error>, big: num_bigint::BigInt|
                {
                    &&& *e == *old(encoder)
                    &&& *final(e) == *final(encoder)
                    &&& integer_value(big) == *self
                    &&& #[trigger] call_ensures(E::encode_integer, (e, tag, constraints, &big, identifier), q)
                    &&& same_outcome(q, r)
                },
    {
        let big = integer_from_i128(*self as i128);
        discard(encoder.encode_integer(tag, constraints, &big, identifier))
    }
}

impl AsnType for num_bigint::BigInt {
    fn tag() -> (tag: Tag)
        ensures
            tag == Tag::universal(2),
    {
        Tag::universal(2)
    }
}

/// A big integer is written by `encode_integer`.
impl<E: Encoder> Encode<E> for num_bigint::BigInt {
    fn encode_with_tag_and_constraints(
        &self,
        encoder: &mut E,
        tag: Tag,
        constraints: Constraints,
        identifier: Option<&'static str>,
    ) -> (r: Result<(), E::Error>)
        ensures
            exists|e: &mut E, q: Result<E::Ok, E::Error>|
                {
                    &&& *e == *old(encoder)
                    &&& *final(e) == *final(encoder)
                    &&& #[trigger] call_ensures(E::encode_integer, (e, tag, constraints, self, identifier), q)
                    &&& same_outcome(q, r)
                },
    {
        discard(encoder.encode_integer(tag, constraints, self, identifier))
    }
}

impl AsnType for BitString {
    fn tag() -> (tag: Tag)
        ensures
            tag == Tag::universal(3),
    {
        Tag::universal(3)
    }
}

/// A bit string is written by `encode_bit_string`.
impl<E: Encoder> Encode<E> for BitString {
    fn encode_with_tag_and_constraints(
        &self,
        encoder: &mut E,
        tag: Tag,
        constraints: Constraints,
        identifier: Option<&'static str>,
    ) -> (r: Result<(), E::Error>)
        ensures
            exists|e: &mut E, q: Result<E::Ok, E::Error>, bits: &[bool]|
                {
                    &&& *e == *old(encoder)
                    &&& *final(e) == *final(encoder)
                    &&& bits@ == self.bits@
                    &&& #[trigger] call_ensures(E::encode_bit_string, (e, tag, constraints, bits, identifier), q)
                    &&& same_outcome(q, r)
                },
    {
        discard(encoder.encode_bit_string(tag, constraints, self.bits.as_slice(), identifier))
    }
}

impl AsnType for OctetString {
    fn tag() -> (tag: Tag)
        ensures
            tag == Tag::universal(4),
    {
        Tag::universal(4)
    }
}

/// An octet string is written by `encode_octet_string`.
impl<E: Encoder> Encode<E> for OctetString {
    fn encode_with_tag_and_constraints(
        &self,
        encoder: &mut E,
        tag: Tag,
        constraints: Constraints,
        identifier: Option<&'static str>,
    ) -> (r: Result<(), E::Error>)
        ensures
            exists|e: &mut E, q: Result<E::Ok, E::Error>, bytes: &[u8]|
                {
                    &&& *e == *old(encoder)
                    &&& *final(e) == *final(encoder)
                    &&& bytes@ == self.bytes@
                    &&& #[trigger] call_ensures(E::encode_octet_string, (e, tag, constraints, bytes, identifier), q)
                    &&& same_outcome(q, r)
                },
    {
        discard(encoder.encode_octet_string(tag, constraints, self.bytes.as_slice(), identifier))
    }
}

impl AsnType for String {
    fn tag() -> (tag: Tag)
        ensures
            tag == Tag::universal(12),
    {
        Tag::universal(12)
    }
}

/// A string is written by `encode_utf8_string`.
impl<E: Encoder> Encode<E> for String {
    fn encode_with_tag_and_constraints(
        &self,
        encoder: &mut E,
        tag: Tag,
        constraints: Constraints,
        identifier: Option<&'static str>,
    ) -> (r: Result<(), E::Error>)
        ensures
            exists|e: &mut E, q: Result<E::Ok, E::Error>, text: &str|
                {
                    &&& *e == *old(encoder)
                    &&& *final(e) == *final(encoder)
                    &&& text@ == self@
                    &&& #[trigger] call_ensures(E::encode_utf8_string, (e, tag, constraints, text, identifier), q)
                    &&& same_outcome(q, r)
                },
    {
        discard(encoder.encode_utf8_string(tag, constraints, self.as_str(), identifier))
    }
}

impl AsnType for &str {
    fn tag() -> (tag: Tag)
        ensures
            tag == Tag::universal(12),
    {
        Tag::universal(12)
    }
}

/// A string slice is written by `encode_utf8_string`.
impl<E: Encoder> Encode<E> for &str {
    fn encode_with_tag_and_constraints(
        &self,
        encoder: &mut E,
        tag: Tag,
        constraints: Constraints,
        identifier: Option<&'static str>,
    ) -> (r: Result<(), E::Error>)
        ensures
            exists|e: &mut E, q: Result<E::Ok, E::Error>|
                {
                    &&& *e == *old(encoder)
                    &&& *final(e) == *final(encoder)
                    &&& #[trigger] call_ensures(E::encode_utf8_string, (e, tag, constraints, *self, identifier), q)
                    &&& same_outcome(q, r)
                },
    {
        discard(encoder.encode_utf8_string(tag, constraints, *self, identifier))
    }
}

impl AsnType for ObjectIdentifier {
    fn tag() -> (tag: Tag)
        ensures
            tag == Tag::universal(6),
    {
        Tag::universal(6)
    }
}

/// An object identifier is written by `encode_object_identifier`.
impl<E: Encoder> Encode<E> for ObjectIdentifier {
    fn encode_with_tag_and_constraints(
        &self,
        encoder: &mut E,
        tag: Tag,
        constraints: Constraints,
        identifier: Option<&'static str>,
    ) -> (r: Result<(), E::Error>)
        ensures
            exists|e: &mut E, q: Result<E::Ok, E::Error>, arcs: &[u32]|
                {
                    &&& *e == *old(encoder)
                    &&& *final(e) == *final(encoder)
                    &&& arcs@ == self.arcs@
                    &&& #[trigger] call_ensures(E::encode_object_identifier, (e, tag, arcs, identifier), q)
                    &&& same_outcome(q, r)
                },
    {
        discard(encoder.encode_object_identifier(tag, self.arcs.as_slice(), identifier))
    }
}

impl AsnType for GeneralString {
    fn tag() -> (tag: Tag)
        ensures
            tag == Tag::universal(27),
    {
        Tag::universal(27)
    }
}

/// A general string is written by `encode_general_string`.
impl<E: Encoder> Encode<E> for GeneralString {
    fn encode_with_tag_and_constraints(
        &self,
        encoder: &mut E,
        tag: Tag,
        constraints: Constraints,
        identifier: Option<&'static str>,
    ) -> (r: Result<(), E::Error>)
        ensures
            exists|e: &mut E, q: Result<E::Ok, E::Error>|
                {
                    &&& *e == *old(encoder)
                    &&& *final(e) == *final(encoder)
                    &&& #[trigger] call_ensures(E::encode_general_string, (e, tag, constraints, self, identifier), q)
                    &&& same_outcome(q, r)
                },
    {
        discard(encoder.encode_general_string(tag, constraints, self, identifier))
    }
}

impl AsnType for VisibleString {
    fn tag() -> (tag: Tag)
        ensures
            tag == Tag::universal(26),
    {
        Tag::universal(26)
    }
}

/// A visible string is written by `encode_visible_string`.
impl<E: Encoder> Encode<E> for VisibleString {
    fn encode_with_tag_and_constraints(
        &self,
        encoder: &mut E,
        tag: Tag,
        constraints: Constraints,
        identifier: Option<&'static str>,
    ) -> (r: Result<(), E::Error>)
        ensures
            exists|e: &mut E, q: Result<E::Ok, E::Error>|
                {
                    &&& *e == *old(encoder)
                    &&& *final(e) == *final(encoder)
                    &&& #[trigger] call_ensures(E::encode_visible_string, (e, tag, constraints, self, identifier), q)
                    &&& same_outcome(q, r)
                },
    {
        discard(encoder.encode_visible_string(tag, constraints, self, identifier))
    }
}

impl AsnType for Ia5String {
    fn tag() -> (tag: Tag)
        ensures
            tag == Tag::universal(22),
    {
        Tag::universal(22)
    }
}

/// An IA5 string is written by `encode_ia5_string`.
impl<E: Encoder> Encode<E> for Ia5String {
    fn encode_with_tag_and_constraints(
        &self,
        encoder: &mut E,
        tag: Tag,
        constraints: Constraints,
        identifier: Option<&'static str>,
    ) -> (r: Result<(), E::Error>)
        ensures
            exists|e: &mut E, q: Result<E::Ok, E::Error>|
                {
                    &&& *e == *old(encoder)
                    &&& *final(e) == *final(encoder)
                    &&& #[trigger] call_ensures(E::encode_ia5_string, (e, tag, constraints, self, identifier), q)
                    &&& same_outcome(q, r)
                },
    {
        discard(encoder.encode_ia5_string(tag, constraints, self, identifier))
    }
}

impl AsnType for PrintableString {
    fn tag() -> (tag: Tag)
        ensures
            tag == Tag::universal(19),
    {
        Tag::universal(19)
    }
}

/// A printable string is written by `encode_printable_string`.
impl<E: Encoder> Encode<E> for PrintableString {
    fn encode_with_tag_and_constraints(
        &self,
        encoder: &mut E,
        tag: Tag,
        constraints: Constraints,
        identifier: Option<&'static str>,
    ) -> (r: Result<(), E::Error>)
        ensures
            exists|e: &mut E, q: Result<E::Ok, E::Error>|
                {
                    &&& *e == *old(encoder)
                    &&& *final(e) == *final(encoder)
                    &&& #[trigger] call_ensures(E::encode_printable_string, (e, tag, constraints, self, identifier), q)
                    &&& same_outcome(q, r)
                },
    {
        discard(encoder.encode_printable_string(tag, constraints, self, identifier))
    }
}

impl AsnType for NumericString {
    fn tag() -> (tag: Tag)
        ensures
            tag == Tag::universal(18),
    {
        Tag::universal(18)
    }
}

/// A numeric string is written by `encode_numeric_string`.
impl<E: Encoder> Encode<E> for NumericString {
    fn encode_with_tag_and_constraints(
        &self,
        encoder: &mut E,
        tag: Tag,
        constraints: Constraints,
        identifier: Option<&'static str>,
    ) -> (r: Result<(), E::Error>)
        ensures
            exists|e: &mut E, q: Result<E::Ok, E::Error>|
                {
                    &&& *e == *old(encoder)
                    &&& *final(e) == *final(encoder)
                    &&& #[trigger] call_ensures(E::encode_numeric_string, (e, tag, constraints, self, identifier), q)
                    &&& same_outcome(q, r)
                },
    {
        discard(encoder.encode_numeric_string(tag, constraints, self, identifier))
    }
}

impl AsnType for TeletexString {
    fn tag() -> (tag: Tag)
        ensures
            tag == Tag::universal(20),
    {
        Tag::universal(20)
    }
}

/// A teletex string is written by `encode_teletex_string`.
impl<E: Encoder> Encode<E> for TeletexString {
    fn encode_with_tag_and_constraints(
        &self,
        encoder: &mut E,
        tag: Tag,
        constraints: Constraints,
        identifier: Option<&'static str>,
    ) -> (r: Result<(), E::Error>)
        ensures
            exists|e: &mut E, q: Result<E::Ok, E::Error>|
                {
                    &&& *e == *old(encoder)
                    &&& *final(e) == *final(encoder)
                    &&& #[trigger] call_ensures(E::encode_teletex_string, (e, tag, constraints, self, identifier), q)
                    &&& same_outcome(q, r)
                },
    {
        discard(encoder.encode_teletex_string(tag, constraints, self, identifier))
    }
}

impl AsnType for BmpString {
    fn tag() -> (tag: Tag)
        ensures
            tag == Tag::universal(30),
    {
        Tag::universal(30)
    }
}

/// A BMP string is written by `encode_bmp_string`.
impl<E: Encoder> Encode<E> for BmpString {
    fn encode_with_tag_and_constraints(
        &self,
        encoder: &mut E,
        tag: Tag,
        constraints: Constraints,
        identifier: Option<&'static str>,
    ) -> (r: Result<(), E::Error>)
        ensures
            exists|e: &mut E, q: Result<E::Ok, E::Error>|
                {
                    &&& *e == *old(encoder)
                    &&& *final(e) == *final(encoder)
                    &&& #[trigger] call_ensures(E::encode_bmp_string, (e, tag, constraints, self, identifier), q)
                    &&& same_outcome(q, r)
                },
    {
        discard(encoder.encode_bmp_string(tag, constraints, self, identifier))
    }
}

impl AsnType for UtcTime {
    fn tag() -> (tag: Tag)
        ensures
            tag == Tag::universal(23),
    {
        Tag::universal(23)
    }
}

/// A UTC time is written by `encode_utc_time`.
impl<E: Encoder> Encode<E> for UtcTime {
    fn encode_with_tag_and_constraints(
        &self,
        encoder: &mut E,
        tag: Tag,
        constraints: Constraints,
        identifier: Option<&'static str>,
    ) -> (r: Result<(), E::Error>)
        ensures
            exists|e: &mut E, q: Result<E::Ok, E::Error>|
                {
                    &&& *e == *old(encoder)
                    &&& *final(e) == *final(encoder)
                    &&& #[trigger] call_ensures(E::encode_utc_time, (e, tag, self, identifier), q)
                    &&& same_outcome(q, r)
                },
    {
        discard(encoder.encode_utc_time(tag, self, identifier))
    }
}

impl AsnType for GeneralizedTime {
    fn tag() -> (tag: Tag)
        ensures
            tag == Tag::universal(24),
    {
        Tag::universal(24)
    }
}

/// A generalized time is written by `encode_generalized_time`.
impl<E: Encoder> Encode<E> for GeneralizedTime {
    fn encode_with_tag_and_constraints(
        &self,
        encoder: &mut E,
        tag: Tag,
        constraints: Constraints,
        identifier: Option<&'static str>,
    ) -> (r: Result<(), E::Error>)
        ensures
            exists|e: &mut E, q: Result<E::Ok, E::Error>|
                {
                    &&& *e == *old(encoder)
                    &&& *final(e) == *final(encoder)
                    &&& #[trigger] call_ensures(E::encode_generalized_time, (e, tag, self, identifier), q)
                    &&& same_outcome(q, r)
                },
    {
        discard(encoder.encode_generalized_time(tag, self, identifier))
    }
}

impl AsnType for Any {
    fn tag() -> (tag: Tag)
        ensures
            tag == Tag::universal(0),
    {
        Tag::universal(0)
    }
}

/// A value of an unknown type is written by `encode_any`.
impl<E: Encoder> Encode<E> for Any {
    fn encode_with_tag_and_constraints(
        &self,
        encoder: &mut E,
        tag: Tag,
        constraints: Constraints,
        identifier: Option<&'static str>,
    ) -> (r: Result<(), E::Error>)
        ensures
            exists|e: &mut E, q: Result<E::Ok, E::Error>|
                {
                    &&& *e == *old(encoder)
                    &&& *final(e) == *final(encoder)
                    &&& #[trigger] call_ensures(E::encode_any, (e, tag, self), q)
                    &&& same_outcome(q, r)
                },
    {
        discard(encoder.encode_any(tag, self))
    }
}

// ---------------------------------------------------------------------------
// Values behind a reference, in a box, or optional
// ---------------------------------------------------------------------------
impl<V: AsnType> AsnType for &V {
    fn tag() -> (tag: Tag)
        ensures
            call_ensures(V::tag, (), tag),
    {
        V::tag()
    }

    fn constraints() -> (c: Constraints)
        ensures
            call_ensures(V::constraints, (), c),
    {
        V::constraints()
    }

    fn identifier() -> (name: Option<&'static str>)
        ensures
            call_ensures(V::identifier, (), name),
    {
        V::identifier()
    }
}

/// A reference is written as what it refers to, by the same method.
impl<E: Outcome, V: Encode<E>> Encode<E> for &V {
    fn encode(&self, encoder: &mut E, identifier: Option<&'static str>) -> (r: Result<
        (),
        E::Error,
    >)
        ensures
            exists|e: &mut E|
                *e == *old(encoder) && *final(e) == *final(encoder) && #[trigger] call_ensures(
                    V::encode,
                    (*self, e, identifier),
                    r,
                ),
    {
        (*self).encode(encoder, identifier)
    }

    fn encode_with_tag(
        &self,
        encoder: &mut E,
        tag: Tag,
        identifier: Option<&'static str>,
    ) -> (r: Result<(), E::Error>)
        ensures
            exists|e: &mut E|
                *e == *old(encoder) && *final(e) == *final(encoder) && #[trigger] call_ensures(
                    V::encode_with_tag,
                    (*self, e, tag, identifier),
                    r,
                ),
    {
        (*self).encode_with_tag(encoder, tag, identifier)
    }

    fn encode_with_constraints(
        &self,
        encoder: &mut E,
        constraints: Constraints,
        identifier: Option<&'static str>,
    ) -> (r: Result<(), E::Error>)
        ensures
            exists|e: &mut E|
                *e == *old(encoder) && *final(e) == *final(encoder) && #[trigger] call_ensures(
                    V::encode_with_constraints,
                    (*self, e, constraints, identifier),
                    r,
                ),
    {
        (*self).encode_with_constraints(encoder, constraints, identifier)
    }

    fn encode_with_tag_and_constraints(
        &self,
        encoder: &mut E,
        tag: Tag,
        constraints: Constraints,
        identifier: Option<&'static str>,
    ) -> (r: Result<(), E::Error>)
        ensures
            exists|e: &mut E|
                *e == *old(encoder) && *final(e) == *final(encoder) && #[trigger] call_ensures(
                    V::encode_with_tag_and_constraints,
                    (*self, e, tag, constraints, identifier),
                    r,
                ),
    {
        (*self).encode_with_tag_and_constraints(encoder, tag, constraints, identifier)
    }
}

impl<V: AsnType> AsnType for Box<V> {
    fn tag() -> (tag: Tag)
        ensures
            call_ensures(V::tag, (), tag),
    {
        V::tag()
    }

    fn constraints() -> (c: Constraints)
        ensures
            call_ensures(V::constraints, (), c),
    {
        V::constraints()
    }

    fn identifier() -> (name: Option<&'static str>)
        ensures
            call_ensures(V::identifier, (), name),
    {
        V::identifier()
    }
}

/// A box is written as what it holds, by the same method.
impl<E: Outcome, V: Encode<E>> Encode<E> for Box<V> {
    fn encode(&self, encoder: &mut E, identifier: Option<&'static str>) -> (r: Result<
        (),
        E::Error,
    >)
        ensures
            exists|e: &mut E|
                *e == *old(encoder) && *final(e) == *final(encoder) && #[trigger] call_ensures(
                    V::encode,
                    (&**self, e, identifier),
                    r,
                ),
    {
        (**self).encode(encoder, identifier)
    }

    fn encode_with_tag(
        &self,
        encoder: &mut E,
        tag: Tag,
        identifier: Option<&'static str>,
    ) -> (r: Result<(), E::Error>)
        ensures
            exists|e: &mut E|
                *e == *old(encoder) && *final(e) == *final(encoder) && #[trigger] call_ensures(
                    V::encode_with_tag,
                    (&**self, e, tag, identifier),
                    r,
                ),
    {
        (**self).encode_with_tag(encoder, tag, identifier)
    }

    fn encode_with_constraints(
        &self,
        encoder: &mut E,
        constraints: Constraints,
        identifier: Option<&'static str>,
    ) -> (r: Result<(), E::Error>)
        ensures
            exists|e: &mut E|
                *e == *old(encoder) && *final(e) == *final(encoder) && #[trigger] call_ensures(
                    V::encode_with_constraints,
                    (&**self, e, constraints, identifier),
                    r,
                ),
    {
        (**self).encode_with_constraints(encoder, constraints, identifier)
    }

    fn encode_with_tag_and_constraints(
        &self,
        encoder: &mut E,
        tag: Tag,
        constraints: Constraints,
        identifier: Option<&'static str>,
    ) -> (r: Result<(), E::Error>)
        ensures
            exists|e: &mut E|
                *e == *old(encoder) && *final(e) == *final(encoder) && #[trigger] call_ensures(
                    V::encode_with_tag_and_constraints,
                    (&**self, e, tag, constraints, identifier),
                    r,
                ),
    {
        (**self).encode_with_tag_and_constraints(encoder, tag, constraints, identifier)
    }
}

impl<V: AsnType> AsnType for Option<V> {
    fn tag() -> (tag: Tag)
        ensures
            call_ensures(V::tag, (), tag),
    {
        V::tag()
    }

    fn constraints() -> (c: Constraints)
        ensures
            call_ensures(V::constraints, (), c),
    {
        V::constraints()
    }

    fn identifier() -> (name: Option<&'static str>)
        ensures
            call_ensures(V::identifier, (), name),
    {
        V::identifier()
    }
}

/// An optional value is written as a present field where there is one, and
/// as an absent field where there is none.
impl<E: Encoder, V: Encode<E>> Encode<E> for Option<V> {
    fn encode(&self, encoder: &mut E, identifier: Option<&'static str>) -> (r: Result<
        (),
        E::Error,
    >)
        ensures
            match self {
                Some(value) => exists|e: &mut E, q: Result<E::Ok, E::Error>|
                    {
                        &&& *e == *old(encoder)
                        &&& *final(e) == *final(encoder)
                        &&& #[trigger] call_ensures(E::encode_some::<V>, (e, value, identifier), q)
                        &&& same_outcome(q, r)
                    },
                None => exists|e: &mut E, q: Result<E::Ok, E::Error>|
                    {
                        &&& *e == *old(encoder)
                        &&& *final(e) == *final(encoder)
                        &&& #[trigger] call_ensures(E::encode_none::<V>, (e,), q)
                        &&& same_outcome(q, r)
                    },
            },
    {
        let q = match self {
            Some(value) => encoder.encode_some::<V>(value, identifier),
            None => encoder.encode_none::<V>(),
        };
        discard(q)
    }

    fn encode_with_tag(
        &self,
        encoder: &mut E,
        tag: Tag,
        identifier: Option<&'static str>,
    ) -> (r: Result<(), E::Error>)
        ensures
            match self {
                Some(value) => exists|e: &mut E, q: Result<E::Ok, E::Error>|
                    {
                        &&& *e == *old(encoder)
                        &&& *final(e) == *final(encoder)
                        &&& #[trigger] call_ensures(E::encode_some_with_tag::<V>, (e, tag, value, identifier), q)
                        &&& same_outcome(q, r)
                    },
                None => exists|e: &mut E, q: Result<E::Ok, E::Error>|
                    {
                        &&& *e == *old(encoder)
                        &&& *final(e) == *final(encoder)
                        &&& #[trigger] call_ensures(E::encode_none::<V>, (e,), q)
                        &&& same_outcome(q, r)
                    },
            },
    {
        let q = match self {
            Some(value) => encoder.encode_some_with_tag(tag, value, identifier),
            None => encoder.encode_none::<V>(),
        };
        discard(q)
    }

    fn encode_with_constraints(
        &self,
        encoder: &mut E,
        constraints: Constraints,
        identifier: Option<&'static str>,
    ) -> (r: Result<(), E::Error>)
        ensures
            match self {
                Some(value) => exists|e: &mut E, q: Result<E::Ok, E::Error>, tag: Tag|
                    #![trigger call_ensures(E::encode_some_with_tag_and_constraints::<V>, (e, tag, constraints, value, identifier), q)]
                    {
                        &&& *e == *old(encoder)
                        &&& *final(e) == *final(encoder)
                        &&& call_ensures(V::tag, (), tag)
                        &&& call_ensures(E::encode_some_with_tag_and_constraints::<V>,
                            (e, tag, constraints, value, identifier), q)
                        &&& same_outcome(q, r)
                    },
                None => exists|e: &mut E, q: Result<E::Ok, E::Error>|
                    {
                        &&& *e == *old(encoder)
                        &&& *final(e) == *final(encoder)
                        &&& #[trigger] call_ensures(E::encode_none::<V>, (e,), q)
                        &&& same_outcome(q, r)
                    },
            },
    {
        let q = match self {
            Some(value) => {
                let tag = V::tag();
                encoder.encode_some_with_tag_and_constraints(tag, constraints, value, identifier)
            },
            None => encoder.encode_none::<V>(),
        };
        discard(q)
    }

    fn encode_with_tag_and_constraints(
        &self,
        encoder: &mut E,
        tag: Tag,
        constraints: Constraints,
        identifier: Option<&'static str>,
    ) -> (r: Result<(), E::Error>)
        ensures
            match self {
                Some(value) => exists|e: &mut E, q: Result<E::Ok, E::Error>|
                    {
                        &&& *e == *old(encoder)
                        &&& *final(e) == *final(encoder)
                        &&& #[trigger] call_ensures(E::encode_some_with_tag_and_constraints::<V>,
                            (e, tag, constraints, value, identifier), q)
                        &&& same_outcome(q, r)
                    },
                None => exists|e: &mut E, q: Result<E::Ok, E::Error>|
                    {
                        &&& *e == *old(encoder)
                        &&& *final(e) == *final(encoder)
                        &&& #[trigger] call_ensures(E::encode_none::<V>, (e,), q)
                        &&& same_outcome(q, r)
                    },
            },
    {
        let q = match self {
            Some(value) => encoder.encode_some_with_tag_and_constraints(
                tag,
                constraints,
                value,
                identifier,
            ),
            None => encoder.encode_none::<V>(),
        };
        discard(q)
    }
}

// ---------------------------------------------------------------------------
// Collections and tagged values
// ---------------------------------------------------------------------------
impl<V> AsnType for Vec<V> {
    fn tag() -> (tag: Tag)
        ensures
            tag == Tag::universal(16),
    {
        Tag::universal(16)
    }
}

/// A vector is written by `encode_sequence_of`.
impl<E: Encoder, V: Encode<E>> Encode<E> for Vec<V> {
    fn encode_with_tag_and_constraints(
        &self,
        encoder: &mut E,
        tag: Tag,
        constraints: Constraints,
        identifier: Option<&'static str>,
    ) -> (r: Result<(), E::Error>)
        ensures
            exists|e: &mut E, q: Result<E::Ok, E::Error>, items: &[V]|
                {
                    &&& *e == *old(encoder)
                    &&& *final(e) == *final(encoder)
                    &&& items@ == self@
                    &&& #[trigger] call_ensures(
                        E::encode_sequence_of::<V>,
                        (e, tag, items, constraints, identifier),
                        q,
                    )
                    &&& same_outcome(q, r)
                },
    {
        discard(encoder.encode_sequence_of(tag, self.as_slice(), constraints, identifier))
    }
}

impl<V, const N: usize> AsnType for [V; N] {
    fn tag() -> (tag: Tag)
        ensures
            tag == Tag::universal(16),
    {
        Tag::universal(16)
    }
}

/// An array is written by `encode_sequence_of`.
impl<E: Encoder, V: Encode<E>, const N: usize> Encode<E> for [V; N] {
    fn encode_with_tag_and_constraints(
        &self,
        encoder: &mut E,
        tag: Tag,
        constraints: Constraints,
        identifier: Option<&'static str>,
    ) -> (r: Result<(), E::Error>)
        ensures
            exists|e: &mut E, q: Result<E::Ok, E::Error>, items: &[V]|
                {
                    &&& *e == *old(encoder)
                    &&& *final(e) == *final(encoder)
                    &&& items@ == self@
                    &&& #[trigger] call_ensures(
                        E::encode_sequence_of::<V>,
                        (e, tag, items, constraints, identifier),
                        q,
                    )
                    &&& same_outcome(q, r)
                },
    {
        discard(encoder.encode_sequence_of(tag, self.as_slice(), constraints, identifier))
    }
}

impl<V> AsnType for SetOf<V> {
    fn tag() -> (tag: Tag)
        ensures
            tag == Tag::universal(17),
    {
        Tag::universal(17)
    }
}

/// A set of values is written by `encode_set_of`.
impl<E: Encoder, V: Encode<E>> Encode<E> for SetOf<V> {
    fn encode_with_tag_and_constraints(
        &self,
        encoder: &mut E,
        tag: Tag,
        constraints: Constraints,
        identifier: Option<&'static str>,
    ) -> (r: Result<(), E::Error>)
        ensures
            exists|e: &mut E, q: Result<E::Ok, E::Error>|
                {
                    &&& *e == *old(encoder)
                    &&& *final(e) == *final(encoder)
                    &&& #[trigger] call_ensures(
                        E::encode_set_of::<V>,
                        (e, tag, self, constraints, identifier),
                        q,
                    )
                    &&& same_outcome(q, r)
                },
    {
        discard(encoder.encode_set_of(tag, self, constraints, identifier))
    }
}

impl<T: AsnType, V> AsnType for Implicit<T, V> {
    fn tag() -> (tag: Tag)
        ensures
            call_ensures(T::tag, (), tag),
    {
        T::tag()
    }
}

/// A value under an implicit tag is written as the value itself, under the
/// tag that the caller gives.
impl<E: Outcome, T: AsnType, V: Encode<E>> Encode<E> for Implicit<T, V> {
    fn encode_with_tag_and_constraints(
        &self,
        encoder: &mut E,
        tag: Tag,
        constraints: Constraints,
        identifier: Option<&'static str>,
    ) -> (r: Result<(), E::Error>)
        ensures
            exists|e: &mut E|
                *e == *old(encoder) && *final(e) == *final(encoder) && #[trigger] call_ensures(
                    V::encode_with_tag_and_constraints,
                    (&self.value, e, tag, constraints, identifier),
                    r,
                ),
    {
        self.value.encode_with_tag_and_constraints(encoder, tag, constraints, identifier)
    }
}

impl<T: AsnType, V> AsnType for Explicit<T, V> {
    fn tag() -> (tag: Tag)
        ensures
            call_ensures(T::tag, (), tag),
    {
        T::tag()
    }
}

/// A value under an explicit tag is written by `encode_explicit_prefix`.
impl<E: Encoder, T: AsnType, V: Encode<E>> Encode<E> for Explicit<T, V> {
    fn encode_with_tag_and_constraints(
        &self,
        encoder: &mut E,
        tag: Tag,
        constraints: Constraints,
        identifier: Option<&'static str>,
    ) -> (r: Result<(), E::Error>)
        ensures
            exists|e: &mut E, q: Result<E::Ok, E::Error>|
                {
                    &&& *e == *old(encoder)
                    &&& *final(e) == *final(encoder)
                    &&& #[trigger] call_ensures(
                        E::encode_explicit_prefix::<V>,
                        (e, tag, &self.value, identifier),
                        q,
                    )
                    &&& same_outcome(q, r)
                },
    {
        discard(encoder.encode_explicit_prefix(tag, &self.value, identifier))
    }
}

} // verus!
