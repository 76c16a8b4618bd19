//! The type descriptor model: what a value is, apart from how any format
//! writes it. Tags, constraints and field descriptors are plain immutable data.

use vstd::prelude::*;

verus! {

/// The class of a tag.
#[derive(Clone, Copy, Debug, PartialEq, Eq, Structural)]
pub enum Class {
    Universal,
    Application,
    Context,
    Private,
}

/// The identity of a type on the wire: a class and a number.
#[derive(Clone, Copy, Debug, PartialEq, Eq, Structural)]
pub struct Tag {
    pub class: Class,
    pub value: u32,
}

impl Tag {
    /// The tag of class `class` with number `value`.
    pub fn new(class: Class, value: u32) -> (tag: Tag)
        ensures
            tag == (Tag { class, value }),
    {
        Tag { class, value }
    }

    /// The universal tag with number `value`, as a specification value.
    pub open spec fn universal_spec(value: u32) -> Tag {
        Tag { class: Class::Universal, value }
    }

    /// The universal tag with number `value`.
    #[verifier::when_used_as_spec(universal_spec)]
    pub fn universal(value: u32) -> (tag: Tag)
        ensures
            tag == Tag::universal_spec(value),
    {
        Tag { class: Class::Universal, value }
    }
}

/// The data formats that values can be written in.
#[derive(Clone, Copy, Debug, PartialEq, Eq, Structural)]
pub enum Codec {
    /// The binary tag-length-value rules.
    Ber,
    /// The XML rules.
    Xer,
}

/// A permitted range; an end that is `None` is open.
#[derive(Clone, Copy, Debug, PartialEq, Eq, Structural)]
pub struct Bounds {
    pub min: Option<i128>,
    pub max: Option<i128>,
}

impl Bounds {
    /// Whether `n` lies within the range.
    pub open spec fn contains(self, n: int) -> bool {
        &&& (self.min matches Some(lo) ==> lo <= n)
        &&& (self.max matches Some(hi) ==> n <= hi)
    }
}

/// The restrictions attached to a type or to a field: the permitted values,
/// the permitted sizes, and whether values outside them are still valid as
/// extensions.
#[derive(Clone, Copy, Debug, PartialEq, Eq, Structural)]
pub struct Constraints {
    pub value: Option<Bounds>,
    pub size: Option<Bounds>,
    pub extensible: bool,
}

impl Constraints {
    /// No restriction at all, as a specification value.
    pub open spec fn none_spec() -> Constraints {
        Constraints { value: None, size: None, extensible: false }
    }

    /// No restriction at all.
    #[verifier::when_used_as_spec(none_spec)]
    pub fn none() -> (c: Constraints)
        ensures
            c == Constraints::none_spec(),
    {
        Constraints { value: None, size: None, extensible: false }
    }

    /// `self` overridden by `field`, as a specification value.
    pub open spec fn override_spec(self, field: Constraints) -> Constraints {
        Constraints {
            value: if field.value is Some { field.value } else { self.value },
            size: if field.size is Some { field.size } else { self.size },
            extensible: self.extensible || field.extensible,
        }
    }

    /// The constraints of a field whose type declares `self` and whose
    /// declaration adds `field`: each restriction of the field replaces the
    /// type's own, and what the field leaves open stays as the type has it.
    pub fn override_constraints(self, field: Constraints) -> (c: Constraints)
        ensures
            c == self.override_spec(field),
    {
        Constraints {
            value: match field.value {
                Some(b) => Some(b),
                None => self.value,
            },
            size: match field.size {
                Some(b) => Some(b),
                None => self.size,
            },
            extensible: self.extensible || field.extensible,
        }
    }

    /// Overriding is associative: a type's constraints, then a field's, then a
    /// use's give the same whichever pair is combined first.
    pub proof fn lemma_override_associative(a: Constraints, b: Constraints, c: Constraints)
        ensures
            a.override_spec(b).override_spec(c) == a.override_spec(b.override_spec(c)),
    {
    }
}

/// Whether a field of a constructed type must be present.
#[derive(Clone, Copy, Debug, PartialEq, Eq, Structural)]
pub enum Presence {
    Required,
    Optional,
    /// Absent stands for the declared default value.
    Default,
}

/// One entry of a constructed type's field table.
#[derive(Clone, Copy, Debug)]
pub struct Field {
    pub name: &'static str,
    pub tag: Tag,
    pub presence: Presence,
}

/// The views of the names in a field table, in declaration order.
pub open spec fn field_names(fields: Seq<Field>) -> Seq<Seq<char>> {
    Seq::new(fields.len(), |i: int| fields[i].name@)
}

/// The view of an optional name.
pub open spec fn name_view(name: Option<&'static str>) -> Option<Seq<char>> {
    match name {
        Some(n) => Some(n@),
        None => None,
    }
}

} // verus!

verus! {

/// What every type that can be encoded or decoded says of itself: its own
/// tag, its own constraints, and the name that textual formats give it.
pub trait AsnType {
    /// The type's own tag.
    fn tag() -> Tag;

    /// The type's own constraints; none unless the type says otherwise.
    fn constraints() -> (c: Constraints)
        default_ensures
            c == Constraints::none(),
    {
        Constraints::none()
    }

    /// The name that a textual format gives a value of this type where
    /// nothing else names it; none unless the type says otherwise.
    fn identifier() -> (name: Option<&'static str>)
        default_ensures
            name is None,
    {
        None
    }
}

/// A type made of fields, each with a name and a tag, in a fixed order.
pub trait Constructed {
    /// The field table, in declaration order.
    fn fields() -> Vec<Field>;
}

/// A type whose values are named alternatives without content.
pub trait Enumerated: Sized {
    /// The name of this alternative.
    fn identifier(&self) -> &'static str;
}

/// A type whose values are one of several alternatives, each with its own
/// tag. Its tag on the wire is the one of the alternative that is present,
/// so it cannot be tagged implicitly.
pub trait Choice {

}

/// A value of a type that is not known here, as the bytes it was encoded to.
#[derive(Clone, Debug, PartialEq, Eq)]
pub struct Any {
    pub contents: Vec<u8>,
}

/// A string of bits, the first bit first.
#[derive(Clone, Debug, PartialEq, Eq)]
pub struct BitString {
    pub bits: Vec<bool>,
}

/// A string of octets.
#[derive(Clone, Debug, PartialEq, Eq)]
pub struct OctetString {
    pub bytes: Vec<u8>,
}

/// An object identifier: its arcs, the root first.
#[derive(Clone, Debug, PartialEq, Eq)]
pub struct ObjectIdentifier {
    pub arcs: Vec<u32>,
}

/// A string of the general character set, as its bytes.
#[derive(Clone, Debug, PartialEq, Eq)]
pub struct GeneralString {
    pub bytes: Vec<u8>,
}

/// A string of visible characters, as its bytes.
#[derive(Clone, Debug, PartialEq, Eq)]
pub struct VisibleString {
    pub bytes: Vec<u8>,
}

/// A string of the international alphabet no. 5, as its bytes.
#[derive(Clone, Debug, PartialEq, Eq)]
pub struct Ia5String {
    pub bytes: Vec<u8>,
}

/// A string of printable characters, as its bytes.
#[derive(Clone, Debug, PartialEq, Eq)]
pub struct PrintableString {
    pub bytes: Vec<u8>,
}

/// A string of digits and spaces, as its bytes.
#[derive(Clone, Debug, PartialEq, Eq)]
pub struct NumericString {
    pub bytes: Vec<u8>,
}

/// A string of the teletex character set, as its bytes.
#[derive(Clone, Debug, PartialEq, Eq)]
pub struct TeletexString {
    pub bytes: Vec<u8>,
}

/// A string of the basic multilingual plane, as its bytes.
#[derive(Clone, Debug, PartialEq, Eq)]
pub struct BmpString {
    pub bytes: Vec<u8>,
}

/// A point in time with a four-digit year, in the canonical text that the
/// binary rules give it, as bytes.
#[derive(Clone, Debug, PartialEq, Eq)]
pub struct GeneralizedTime {
    pub canonical: Vec<u8>,
}

/// A point in time with a two-digit year, in the canonical text that the
/// binary rules give it, as bytes.
#[derive(Clone, Debug, PartialEq, Eq)]
pub struct UtcTime {
    pub canonical: Vec<u8>,
}

/// An unordered collection of values of one type.
#[derive(Clone, Debug, PartialEq, Eq)]
pub struct SetOf<T> {
    pub items: Vec<T>,
}

/// A value of type `V` under the tag of `T`, which replaces its own.
pub struct Implicit<T, V> {
    pub tag_of: core::marker::PhantomData<T>,
    pub value: V,
}

/// A value of type `V` wrapped under the tag of `T`, beneath which it keeps
/// its own.
pub struct Explicit<T, V> {
    pub tag_of: core::marker::PhantomData<T>,
    pub value: V,
}

} // verus!
