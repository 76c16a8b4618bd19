//! Writing values as XML.

use crate::enc::{chained, same_outcome, Encode, Outcome};
use crate::error::{EncodeError, XerEncodeErrorKind};
use crate::integer::{integer_to_decimal, integer_value};
use crate::types::{
    field_names, name_view, Any, BmpString, Choice, Codec, Constraints, Constructed, Enumerated,
    Field, GeneralString, GeneralizedTime, Ia5String, NumericString, PrintableString, SetOf, Tag,
    TeletexString, UtcTime, VisibleString,
};
use crate::xer::markup::{
    document_text, emit, ends_fragment, event_kind, fragment_events, into_document, is_fragment,
    is_taken, local_name, nesting, new_writer, open_after, parse_fragment, parsed_kind, step_of,
    writer_intact, writer_markup, writer_open, ElementName, EventKind, Markup, Piece,
};
use crate::xer::names::{
    fallback_name, given_name, in_fields, names_of, names_view, next_name, or_own_name, skip_name,
    FieldTagStack, Scope,
};
use crate::xer::text::{
    arcs_text, bits_text, bitstring_text, decimal_text, hex_text, object_identifier_text,
    octets_text,
};
use crate::xer::{
    BIT_STRING_TYPE_TAG, BMP_STRING_TYPE_TAG, BOOLEAN_FALSE_TAG, BOOLEAN_TRUE_TAG,
    BOOLEAN_TYPE_TAG, GENERALIZED_TIME_TYPE_TAG, GENERAL_STRING_TYPE_TAG, IA5_STRING_TYPE_TAG,
    INTEGER_TYPE_TAG, NULL_TYPE_TAG, NUMERIC_STRING_TYPE_TAG, OBJECT_IDENTIFIER_TYPE_TAG,
    OCTET_STRING_TYPE_TAG, PRINTABLE_STRING_TYPE_TAG, SEQUENCE_OF_TYPE_TAG, SEQUENCE_TYPE_TAG,
    SET_OF_TYPE_TAG, SET_TYPE_TAG, TELETEX_STRING_TYPE_TAG, UTC_TIME_TYPE_TAG,
    UTF8_STRING_TYPE_TAG, VISIBLE_STRING_TYPE_TAG,
};
use vstd::prelude::*;
use vstd::utf8::{decode_utf8, valid_utf8};

verus! {

/// The error of `String::from_utf8`, of which only the message is used.
#[verifier::external_type_specification]
#[verifier::external_body]
pub struct ExFromUtf8Error(std::string::FromUtf8Error);

/// `String::from_utf8`: the text that the bytes are the UTF-8 of, and an
/// error where they are not UTF-8.
pub assume_specification[ String::from_utf8 ](bytes: Vec<u8>) -> (r: Result<
    String,
    std::string::FromUtf8Error,
>)
    ensures
        r is Ok <==> valid_utf8(bytes@),
        r matches Ok(text) ==> text@ == decode_utf8(bytes@),
;

/// The element with name `name` and content `body`.
pub open spec fn element(name: Seq<char>, body: Seq<Markup>) -> Seq<Markup> {
    seq![Markup::Start(name)] + body + seq![Markup::End(name)]
}

// ---------------------------------------------------------------------------
// What stands between the start and the end of an element
// ---------------------------------------------------------------------------
/// A boolean: an empty element named `true` or `false`.
pub open spec fn bool_markup(value: bool) -> Seq<Markup> {
    if value {
        element(BOOLEAN_TRUE_TAG@, Seq::empty())
    } else {
        element(BOOLEAN_FALSE_TAG@, Seq::empty())
    }
}

/// A bit string: its bits as text, or nothing where it has none.
pub open spec fn bits_markup(bits: Seq<bool>) -> Seq<Markup> {
    if bits.len() == 0 {
        Seq::empty()
    } else {
        seq![Markup::Text(bits_text(bits))]
    }
}

/// An octet string: its octets as text, or nothing where it has none.
pub open spec fn octets_markup(bytes: Seq<u8>) -> Seq<Markup> {
    if bytes.len() == 0 {
        Seq::empty()
    } else {
        seq![Markup::Text(hex_text(bytes))]
    }
}

/// An enumerated value: an empty element named after the alternative.
pub open spec fn enumerated_markup(name: Seq<char>) -> Seq<Markup> {
    element(name, Seq::empty())
}

/// Character data.
pub open spec fn text_markup(text: Seq<char>) -> Seq<Markup> {
    seq![Markup::Text(text)]
}

/// The first `n` events of a fragment as they are written again: each but
/// the start of the document and white space.
pub open spec fn passed_through(
    events: Seq<Result<xml_no_std::reader::XmlEvent, String>>,
    n: nat,
) -> Seq<Markup>
    decreases n,
{
    if n == 0 || n > events.len() {
        Seq::empty()
    } else {
        let before = passed_through(events, (n - 1) as nat);
        match events[n - 1] {
            Ok(e) => if parsed_kind(e).is_content() {
                before.push(Markup::Parsed(e))
            } else {
                before
            },
            Err(_) => before,
        }
    }
}

/// A value of an unknown type: the events of its bytes, read as a fragment
/// of XML, without the last, which is the end of the fragment.
pub open spec fn any_markup(contents: Seq<u8>) -> Seq<Markup> {
    passed_through(fragment_events(contents), (fragment_events(contents).len() - 1) as nat)
}

/// Whether `contents` cannot be read as a fragment of XML: the reader ends
/// with an error.
pub open spec fn is_malformed(contents: Seq<u8>) -> bool {
    fragment_events(contents).last() is Err
}

/// The character of `contents` at the place `k`, counted from the byte
/// `start` on in characters of `width` bytes, each with its value in the
/// byte at `at` and zero in the other: its value where it is below 256, and
/// `None` where it is not or where `contents` ends before it.
pub open spec fn unit(contents: Seq<u8>, start: int, width: int, at: int, k: int) -> Option<u8> {
    if contents.len() < start + (k + 1) * width {
        None
    } else if width == 2 && contents[start + k * width + (1 - at)] != 0 {
        None
    } else {
        Some(contents[start + k * width + at])
    }
}

/// Whether the six characters of `contents` from the byte `start` on are
/// `<?xml` and white space or `?`: the beginning of an XML declaration.
pub open spec fn declares(contents: Seq<u8>, start: int, width: int, at: int) -> bool {
    &&& unit(contents, start, width, at, 0) == Some(0x3Cu8)
    &&& unit(contents, start, width, at, 1) == Some(0x3Fu8)
    &&& unit(contents, start, width, at, 2) == Some(0x78u8)
    &&& unit(contents, start, width, at, 3) == Some(0x6Du8)
    &&& unit(contents, start, width, at, 4) == Some(0x6Cu8)
    &&& unit(contents, start, width, at, 5) matches Some(byte) && is_after_xml(byte)
}

/// Whether `byte` is what follows `<?xml` in a declaration: white space or
/// `?`.
pub open spec fn is_after_xml(byte: u8) -> bool {
    byte == 0x20 || byte == 0x09 || byte == 0x0A || byte == 0x0D || byte == 0x3F
}

/// Whether `contents` begins with an XML declaration, after the byte-order
/// mark if it has one: in UTF-8, or in UTF-16 of the order that its mark
/// tells.
pub open spec fn has_prolog(contents: Seq<u8>) -> bool {
    if contents.len() >= 3 && contents[0] == 0xEF && contents[1] == 0xBB && contents[2] == 0xBF {
        declares(contents, 3, 1, 0)
    } else if contents.len() >= 2 && contents[0] == 0xFE && contents[1] == 0xFF {
        declares(contents, 2, 2, 1)
    } else if contents.len() >= 2 && contents[0] == 0xFF && contents[1] == 0xFE {
        declares(contents, 2, 2, 0)
    } else {
        declares(contents, 0, 1, 0)
    }
}

// ---------------------------------------------------------------------------
// The encoder
// ---------------------------------------------------------------------------
/// The encoder for XML: the writer of the document, and the field-tag
/// stack, which holds for each open scope the names of the fields that are
/// still to be written.
pub struct Encoder {
    field_tag_stack: FieldTagStack,
    writer: xml_no_std::writer::EventWriter,
}

/// What an encoder holds, as a specification value.
#[verifier::ext_equal]
pub struct EncoderView {
    /// The open scopes, the innermost last.
    pub scopes: Seq<Scope>,
    /// The events written so far.
    pub markup: Seq<Markup>,
    /// The names of the elements that are started and not ended.
    pub open: Seq<ElementName>,
    /// Whether the writer has refused no event. Once it has, nothing is
    /// known of what it holds.
    pub intact: bool,
}

impl EncoderView {
    /// The encoder that has written nothing.
    pub open spec fn fresh() -> EncoderView {
        EncoderView {
            scopes: Seq::empty(),
            markup: Seq::empty(),
            open: Seq::empty(),
            intact: true,
        }
    }

    /// After the element `name` with content `body` was written as the next
    /// value, which left the scopes `scopes`.
    pub open spec fn with_element(
        self,
        scopes: Seq<Scope>,
        name: Seq<char>,
        body: Seq<Markup>,
    ) -> EncoderView {
        EncoderView { scopes, markup: self.markup + element(name, body), open: self.open, intact: true }
    }

    /// After the element `name` was started as the next value, which left
    /// the scopes `scopes`, and the scope `scope` was opened in it.
    pub open spec fn entered(self, scopes: Seq<Scope>, name: Seq<char>, scope: Scope) -> EncoderView {
        EncoderView {
            scopes: scopes.push(scope),
            markup: self.markup.push(Markup::Start(name)),
            open: self.open.push(local_name(name)),
            intact: true,
        }
    }

    /// Whether the element `name` can be ended: it is the innermost open one.
    pub open spec fn can_end(self, name: Seq<char>) -> bool {
        self.open.len() > 0 && self.open.last() == local_name(name)
    }

    /// After the innermost scope was closed.
    pub open spec fn closed(self) -> EncoderView {
        EncoderView {
            scopes: if self.scopes.len() > 0 {
                self.scopes.drop_last()
            } else {
                self.scopes
            },
            ..self
        }
    }

    /// After the innermost scope was closed and the element `name` ended.
    pub open spec fn left(self, name: Seq<char>) -> EncoderView {
        EncoderView {
            scopes: self.closed().scopes,
            markup: self.markup.push(Markup::End(name)),
            open: self.open.drop_last(),
            intact: true,
        }
    }
}

/// What encoding one value as an element leaves behind: the element is
/// named as `next_name` says and holds `body`; where there is no name, the
/// "missing field name" error comes back.
pub open spec fn encodes_element(
    pre: EncoderView,
    fallback: Option<Seq<char>>,
    body: Seq<Markup>,
    post: EncoderView,
    r: Result<(), EncodeError>,
) -> bool {
    pre.intact ==> match next_name(pre.scopes, fallback) {
        None => r is Err && r->Err_0.is_field_name(),
        Some((name, scopes)) => r is Ok && post == pre.with_element(scopes, name, body),
    }
}

/// As `encodes_element`, for a value whose text is given as bytes: bytes
/// that are not UTF-8 have no text, and an "XML encoding" error comes back.
pub open spec fn encodes_bytes(
    pre: EncoderView,
    fallback: Option<Seq<char>>,
    bytes: Seq<u8>,
    post: EncoderView,
    r: Result<(), EncodeError>,
) -> bool {
    if valid_utf8(bytes) || next_name(pre.scopes, fallback) is None {
        encodes_element(pre, fallback, text_markup(decode_utf8(bytes)), post, r)
    } else {
        pre.intact ==> r is Err && r->Err_0.is_xml_encoding()
    }
}

/// What closing a scope leaves behind, after what was written in it left
/// `mid` and returned `inner`: an error of the scope comes back as it is;
/// else the scope is closed and the element `name` ended, if it is the
/// innermost open one, and an "XML encoding" error comes back if not.
pub open spec fn leaves_scope<T>(
    mid: EncoderView,
    name: Seq<char>,
    inner: Result<T, EncodeError>,
    post: EncoderView,
    r: Result<(), EncodeError>,
) -> bool {
    match inner {
        Err(e) => r is Err && r->Err_0 == e,
        Ok(_) => mid.intact ==> if mid.can_end(name) {
            r is Ok && post == mid.left(name)
        } else {
            r is Err && r->Err_0.is_xml_encoding()
        },
    }
}

impl View for Encoder {
    type V = EncoderView;

    closed spec fn view(&self) -> EncoderView {
        EncoderView {
            scopes: self.field_tag_stack@,
            markup: writer_markup(self.writer),
            open: writer_open(self.writer),
            intact: writer_intact(self.writer),
        }
    }
}

impl Default for Encoder {
    fn default() -> (encoder: Self)
        ensures
            encoder@ == EncoderView::fresh(),
    {
        Self::new()
    }
}

/// The character of `contents` at the place `k`.
fn unit_at(contents: &[u8], start: usize, wide: bool, at: usize, k: usize) -> (value: Option<u8>)
    requires
        start <= 3,
        at <= 1,
        k < 6,
        !wide ==> at == 0,
    ensures
        value == unit(
            contents@,
            start as int,
            if wide {
                2
            } else {
                1
            },
            at as int,
            k as int,
        ),
{
    let width: usize = if wide {
        2
    } else {
        1
    };
    if contents.len() < start + (k + 1) * width {
        None
    } else if wide && contents[start + k * width + (1 - at)] != 0 {
        None
    } else {
        Some(contents[start + k * width + at])
    }
}

/// Tells whether the character of `contents` at the place `k` is `byte`.
fn is_unit(contents: &[u8], start: usize, wide: bool, at: usize, k: usize, byte: u8) -> (b: bool)
    requires
        start <= 3,
        at <= 1,
        k < 6,
        !wide ==> at == 0,
    ensures
        b == (unit(
            contents@,
            start as int,
            if wide {
                2
            } else {
                1
            },
            at as int,
            k as int,
        ) == Some(byte)),
{
    match unit_at(contents, start, wide, at, k) {
        Some(found) => found == byte,
        None => false,
    }
}

/// Tells whether the six characters of `contents` from `start` on begin an
/// XML declaration.
fn begins_declaration(contents: &[u8], start: usize, wide: bool, at: usize) -> (b: bool)
    requires
        start <= 3,
        at <= 1,
        !wide ==> at == 0,
    ensures
        b == declares(
            contents@,
            start as int,
            if wide {
                2
            } else {
                1
            },
            at as int,
        ),
{
    is_unit(contents, start, wide, at, 0, 0x3C) && is_unit(contents, start, wide, at, 1, 0x3F)
        && is_unit(contents, start, wide, at, 2, 0x78) && is_unit(contents, start, wide, at, 3, 0x6D)
        && is_unit(contents, start, wide, at, 4, 0x6C) && match unit_at(
        contents,
        start,
        wide,
        at,
        5,
    ) {
        Some(last) => last == 0x20 || last == 0x09 || last == 0x0A || last == 0x0D || last == 0x3F,
        None => false,
    }
}

/// Tells whether `contents` begins with an XML declaration.
fn begins_with_prolog(contents: &[u8]) -> (b: bool)
    ensures
        b == has_prolog(contents@),
{
    if contents.len() >= 3 && contents[0] == 0xEF && contents[1] == 0xBB && contents[2] == 0xBF {
        begins_declaration(contents, 3, false, 0)
    } else if contents.len() >= 2 && contents[0] == 0xFE && contents[1] == 0xFF {
        begins_declaration(contents, 2, true, 1)
    } else if contents.len() >= 2 && contents[0] == 0xFF && contents[1] == 0xFE {
        begins_declaration(contents, 2, true, 0)
    } else {
        begins_declaration(contents, 0, false, 0)
    }
}

/// Where the events nest, so do those before any place among them.
proof fn lemma_nesting_before(events: Seq<Result<xml_no_std::reader::XmlEvent, String>>, n: nat, k: nat)
    requires
        k <= n <= events.len(),
        nesting(events, n) is Some,
    ensures
        nesting(events, k) is Some,
    decreases n - k,
{
    if k < n {
        lemma_nesting_before(events, n, k + 1);
    }
}

impl Encoder {
    /// An encoder that has written nothing and has no scope open.
    pub fn new() -> (encoder: Self)
        ensures
            encoder@ == EncoderView::fresh(),
    {
        Self { writer: new_writer(), field_tag_stack: FieldTagStack::new() }
    }

    /// The document that was written, as bytes.
    pub fn finish(self) -> (bytes: Vec<u8>)
        ensures
            self@.intact ==> bytes@ == document_text(self@.markup),
    {
        into_document(self.writer)
    }

    /// Hands one event to the writer. What the writer refuses comes back as
    /// an "XML encoding" error with the writer's message.
    fn write(&mut self, piece: Piece<'_>) -> (r: Result<(), EncodeError>)
        requires
            piece matches Piece::Parsed(event) ==> parsed_kind(*event).is_content(),
        ensures
            final(self)@.scopes == old(self)@.scopes,
            r is Err ==> r->Err_0.is_xml_encoding(),
            old(self)@.intact ==> (r is Ok <==> is_taken(old(self)@.open, step_of(piece.markup()))),
            old(self)@.intact && r is Ok ==> final(self)@ == (EncoderView {
                markup: old(self)@.markup.push(piece.markup()),
                open: open_after(old(self)@.open, step_of(piece.markup())),
                ..old(self)@
            }),
    {
        match emit(&mut self.writer, piece) {
            Ok(()) => Ok(()),
            Err(upstream) => Err(
                EncodeError::from_xer(XerEncodeErrorKind::XmlEncodingError { upstream }),
            ),
        }
    }

    /// Starts the element for the next value.
    fn begin(&mut self, fallback: Option<&'static str>) -> (r: Result<&'static str, EncodeError>)
        ensures
            next_name(old(self)@.scopes, name_view(fallback)) is None ==> r is Err
                && r->Err_0.is_field_name() && final(self)@ == old(self)@,
            old(self)@.intact ==> match next_name(old(self)@.scopes, name_view(fallback)) {
                None => r is Err,
                Some((name, scopes)) => r is Ok && r->Ok_0@ == name && final(self)@
                    == (EncoderView {
                    scopes,
                    markup: old(self)@.markup.push(Markup::Start(name)),
                    open: old(self)@.open.push(local_name(name)),
                    intact: true,
                }),
            },
    {
        let name = self.take_name(fallback)?;
        self.write(Piece::StartElement(name))?;
        Ok(name)
    }

    /// Ends the element `name`.
    fn end(&mut self, name: &str) -> (r: Result<(), EncodeError>)
        ensures
            old(self)@.intact ==> if old(self)@.can_end(name@) {
                r is Ok && final(self)@ == (EncoderView {
                    markup: old(self)@.markup.push(Markup::End(name@)),
                    open: old(self)@.open.drop_last(),
                    ..old(self)@
                })
            } else {
                r is Err && r->Err_0.is_xml_encoding()
            },
    {
        self.write(Piece::EndElement(name))
    }

    /// Writes an element without content.
    fn write_empty(&mut self, name: &str) -> (r: Result<(), EncodeError>)
        ensures
            old(self)@.intact ==> r is Ok && final(self)@ == (EncoderView {
                markup: old(self)@.markup + element(name@, Seq::empty()),
                ..old(self)@
            }),
    {
        self.write(Piece::StartElement(name))?;
        let r = self.write(Piece::EndElement(name));
        proof {
            if old(self)@.intact {
                assert(old(self)@.open.push(local_name(name@)).drop_last() =~= old(self)@.open);
                assert(self@.markup =~= old(self)@.markup + element(name@, Seq::empty()));
            }
        }
        r
    }

    /// Writes character data.
    fn write_string_type(&mut self, value: &str) -> (r: Result<(), EncodeError>)
        ensures
            old(self)@.intact ==> r is Ok && final(self)@ == (EncoderView {
                markup: old(self)@.markup + text_markup(value@),
                ..old(self)@
            }),
    {
        let r = self.write(Piece::Characters(value));
        proof {
            if old(self)@.intact {
                assert(self@.markup =~= old(self)@.markup + text_markup(value@));
            }
        }
        r
    }

    fn write_bool(&mut self, value: bool) -> (r: Result<(), EncodeError>)
        ensures
            old(self)@.intact ==> r is Ok && final(self)@ == (EncoderView {
                markup: old(self)@.markup + bool_markup(value),
                ..old(self)@
            }),
    {
        if value {
            self.write_empty(BOOLEAN_TRUE_TAG)
        } else {
            self.write_empty(BOOLEAN_FALSE_TAG)
        }
    }

    fn write_bitstring(&mut self, value: &[bool]) -> (r: Result<(), EncodeError>)
        ensures
            old(self)@.intact ==> r is Ok && final(self)@ == (EncoderView {
                markup: old(self)@.markup + bits_markup(value@),
                ..old(self)@
            }),
    {
        if value.len() == 0 {
            assert(old(self)@.markup + bits_markup(value@) =~= old(self)@.markup);
            Ok(())
        } else {
            let text = bitstring_text(value);
            self.write_string_type(text.as_str())
        }
    }

    fn write_enumerated<N: Enumerated>(&mut self, value: &N) -> (r: Result<(), EncodeError>)
        ensures
            old(self)@.intact ==> r is Ok && exists|name: &'static str| #[trigger]
                call_ensures(N::identifier, (value,), name) && final(self)@ == (EncoderView {
                    markup: old(self)@.markup + enumerated_markup(name@),
                    ..old(self)@
                }),
    {
        let name = value.identifier();
        self.write_empty(name)
    }

    fn write_integer(&mut self, value: &num_bigint::BigInt) -> (r: Result<(), EncodeError>)
        ensures
            old(self)@.intact ==> r is Ok && final(self)@ == (EncoderView {
                markup: old(self)@.markup + text_markup(decimal_text(integer_value(*value))),
                ..old(self)@
            }),
    {
        let text = integer_to_decimal(value);
        self.write_string_type(text.as_str())
    }

    fn write_object_identifier(&mut self, value: &[u32]) -> (r: Result<(), EncodeError>)
        ensures
            old(self)@.intact ==> r is Ok && final(self)@ == (EncoderView {
                markup: old(self)@.markup + text_markup(arcs_text(value@)),
                ..old(self)@
            }),
    {
        let text = object_identifier_text(value);
        self.write_string_type(text.as_str())
    }

    fn write_null(&mut self) -> (r: Result<(), EncodeError>)
        ensures
            r is Ok,
            final(self)@ == old(self)@,
    {
        Ok(())
    }

    fn write_octet_string(&mut self, value: &[u8]) -> (r: Result<(), EncodeError>)
        ensures
            old(self)@.intact ==> r is Ok && final(self)@ == (EncoderView {
                markup: old(self)@.markup + octets_markup(value@),
                ..old(self)@
            }),
    {
        if value.len() == 0 {
            assert(old(self)@.markup + octets_markup(value@) =~= old(self)@.markup);
            Ok(())
        } else {
            let text = octets_text(value);
            self.write_string_type(text.as_str())
        }
    }

    /// Writes as character data the text that `bytes` are the UTF-8 of.
    fn write_bytes(&mut self, bytes: &Vec<u8>) -> (r: Result<(), EncodeError>)
        ensures
            old(self)@.intact ==> if valid_utf8(bytes@) {
                r is Ok && final(self)@ == (EncoderView {
                    markup: old(self)@.markup + text_markup(decode_utf8(bytes@)),
                    ..old(self)@
                })
            } else {
                r is Err && r->Err_0.is_xml_encoding()
            },
    {
        match String::from_utf8(bytes.clone()) {
            Ok(text) => self.write_string_type(text.as_str()),
            Err(error) => Err(
                EncodeError::from_xer(
                    XerEncodeErrorKind::XmlEncodingError { upstream: error.to_string() },
                ),
            ),
        }
    }

    fn write_generalized_time(&mut self, value: &GeneralizedTime) -> (r: Result<(), EncodeError>)
        ensures
            old(self)@.intact ==> if valid_utf8(value.canonical@) {
                r is Ok && final(self)@ == (EncoderView {
                    markup: old(self)@.markup + text_markup(decode_utf8(value.canonical@)),
                    ..old(self)@
                })
            } else {
                r is Err && r->Err_0.is_xml_encoding()
            },
    {
        self.write_bytes(&value.canonical)
    }

    fn write_utc_time(&mut self, value: &UtcTime) -> (r: Result<(), EncodeError>)
        ensures
            old(self)@.intact ==> if valid_utf8(value.canonical@) {
                r is Ok && final(self)@ == (EncoderView {
                    markup: old(self)@.markup + text_markup(decode_utf8(value.canonical@)),
                    ..old(self)@
                })
            } else {
                r is Err && r->Err_0.is_xml_encoding()
            },
    {
        self.write_bytes(&value.canonical)
    }

    /// Writes again the events of a fragment of XML, in their order, without
    /// the white space between them. A fragment with an XML declaration is
    /// refused, and so is one that the reader cannot read to its end; of
    /// neither is anything written.
    fn write_any(&mut self, value: &Any) -> (r: Result<(), EncodeError>)
        ensures
            final(self)@.scopes == old(self)@.scopes,
            r is Err ==> r->Err_0.is_xml_encoding(),
            has_prolog(value.contents@) || is_malformed(value.contents@) ==> r is Err && final(self)@ == old(self)@,
            old(self)@.intact && !has_prolog(value.contents@) && !is_malformed(value.contents@)
                ==> r is Ok && final(self)@ == (EncoderView {
                markup: old(self)@.markup + any_markup(value.contents@),
                ..old(self)@
            }),
    {
        if begins_with_prolog(value.contents.as_slice()) {
            return Err(
                EncodeError::from_xer(
                    XerEncodeErrorKind::XmlEncodingError {
                        upstream: "Any-type values must not contain XML prolog!".to_owned(),
                    },
                ),
            );
        }
        let events = parse_fragment(value.contents.as_slice());
        let last = events.len() - 1;
        match &events[last] {
            Err(message) => {
                return Err(
                    EncodeError::from_xer(
                        XerEncodeErrorKind::XmlEncodingError { upstream: message.clone() },
                    ),
                );
            },
            Ok(_) => {},
        }
        let ghost base = self@.open;
        let mut i: usize = 0;
        proof {
            lemma_nesting_before(events@, events@.len(), 0);
            assert(base + Seq::<ElementName>::empty() =~= base);
            assert(self@.markup + Seq::<Markup>::empty() =~= self@.markup);
        }
        while i < last
            invariant
                i <= last,
                last == events.len() - 1,
                events@ == fragment_events(value.contents@),
                is_fragment(events@),
                events@.last() is Ok,
                !has_prolog(value.contents@),
                self@.scopes == old(self)@.scopes,
                base == old(self)@.open,
                nesting(events@, i as nat) is Some,
                old(self)@.intact ==> self@ == (EncoderView {
                    markup: old(self)@.markup + passed_through(events@, i as nat),
                    open: base + nesting(events@, i as nat)->0,
                    ..old(self)@
                }),
            decreases last - i,
        {
            proof {
                lemma_nesting_before(events@, events@.len(), (i + 1) as nat);
                assert(!ends_fragment(events@[i as int]));
            }
            let ghost inner = nesting(events@, i as nat)->0;
            match &events[i] {
                Err(message) => {
                    return Err(
                        EncodeError::from_xer(
                            XerEncodeErrorKind::XmlEncodingError { upstream: message.clone() },
                        ),
                    );
                },
                Ok(event) => {
                    let kind = event_kind(event);
                    match kind {
                        EventKind::StartDocument | EventKind::Whitespace | EventKind::EndDocument => {},
                        _ => {
                            proof {
                                if kind == EventKind::EndElement {
                                    assert((base + inner).last() == inner.last());
                                    assert((base + inner).drop_last() =~= base + inner.drop_last());
                                }
                                if kind == EventKind::StartElement {
                                    assert((base + inner).push(
                                        crate::xer::markup::parsed_name(*event),
                                    ) =~= base + inner.push(
                                        crate::xer::markup::parsed_name(*event),
                                    ));
                                }
                            }
                            self.write(Piece::Parsed(event))?;
                            proof {
                                if old(self)@.intact {
                                    assert(self@.markup =~= old(self)@.markup + passed_through(
                                        events@,
                                        (i + 1) as nat,
                                    ));
                                }
                            }
                        },
                    }
                },
            }
            i = i + 1;
        }
        proof {
            assert(nesting(events@, events@.len()) == nesting(events@, last as nat));
            assert(base + Seq::<ElementName>::empty() =~= base);
        }
        Ok(())
    }
}

impl Outcome for Encoder {
    type Ok = ();

    type Error = EncodeError;
}

impl crate::enc::Encoder for Encoder {
    fn codec(&self) -> (codec: Codec)
        ensures
            codec == Codec::Xer,
    {
        Codec::Xer
    }

    /// A value of an unknown type can only be a field: it has no name of
    /// its own, and where no field names it nothing is written. Its bytes
    /// are read as a fragment of XML and written again inside the field's
    /// element. A fragment with an XML declaration, or one that cannot be
    /// read to its end, is refused.
    fn encode_any(&mut self, tag: Tag, value: &Any) -> (r: Result<(), EncodeError>)
        ensures
            next_name(old(self)@.scopes, None) is None ==> r is Err && r->Err_0.is_field_name()
                && final(self)@ == old(self)@,
            old(self)@.intact ==> match next_name(old(self)@.scopes, None) {
                None => r is Err,
                Some((name, scopes)) => if has_prolog(value.contents@) || is_malformed(
                    value.contents@,
                ) {
                    r is Err && r->Err_0.is_xml_encoding()
                } else {
                    r is Ok && final(self)@ == old(self)@.with_element(
                        scopes,
                        name,
                        any_markup(value.contents@),
                    )
                },
            },
    {
        let name = self.begin(None)?;
        self.write_any(value)?;
        let r = self.end(name);
        proof {
            lemma_element_written(old(self)@, self@, name@, any_markup(value.contents@));
        }
        r
    }

    fn encode_bool(&mut self, tag: Tag, value: bool, identifier: Option<&'static str>) -> (r: Result<
        (),
        EncodeError,
    >)
        ensures
            encodes_element(
                old(self)@,
                fallback_name(name_view(identifier), BOOLEAN_TYPE_TAG@),
                bool_markup(value),
                final(self)@,
                r,
            ),
    {
        let name = self.begin(or_own_name(identifier, BOOLEAN_TYPE_TAG))?;
        self.write_bool(value)?;
        let r = self.end(name);
        proof {
            lemma_element_written(old(self)@, self@, name@, bool_markup(value));
        }
        r
    }

    fn encode_bit_string(
        &mut self,
        tag: Tag,
        constraints: Constraints,
        value: &[bool],
        identifier: Option<&'static str>,
    ) -> (r: Result<(), EncodeError>)
        ensures
            encodes_element(
                old(self)@,
                fallback_name(name_view(identifier), BIT_STRING_TYPE_TAG@),
                bits_markup(value@),
                final(self)@,
                r,
            ),
    {
        let name = self.begin(or_own_name(identifier, BIT_STRING_TYPE_TAG))?;
        self.write_bitstring(value)?;
        let r = self.end(name);
        proof {
            lemma_element_written(old(self)@, self@, name@, bits_markup(value@));
        }
        r
    }

    /// An enumerated value has no name of its own: it is named by its field
    /// or by `identifier`.
    fn encode_enumerated<N: Enumerated>(
        &mut self,
        tag: Tag,
        value: &N,
        identifier: Option<&'static str>,
    ) -> (r: Result<(), EncodeError>)
        ensures
            exists|alternative: &'static str| #[trigger]
                call_ensures(N::identifier, (value,), alternative) && encodes_element(
                    old(self)@,
                    name_view(identifier),
                    enumerated_markup(alternative@),
                    final(self)@,
                    r,
                ),
    {
        let alternative = value.identifier();
        let name = self.begin(identifier)?;
        self.write_empty(alternative)?;
        let r = self.end(name);
        proof {
            lemma_element_written(old(self)@, self@, name@, enumerated_markup(alternative@));
        }
        r
    }

    fn encode_object_identifier(
        &mut self,
        tag: Tag,
        value: &[u32],
        identifier: Option<&'static str>,
    ) -> (r: Result<(), EncodeError>)
        ensures
            encodes_element(
                old(self)@,
                fallback_name(name_view(identifier), OBJECT_IDENTIFIER_TYPE_TAG@),
                text_markup(arcs_text(value@)),
                final(self)@,
                r,
            ),
    {
        let name = self.begin(or_own_name(identifier, OBJECT_IDENTIFIER_TYPE_TAG))?;
        self.write_object_identifier(value)?;
        let r = self.end(name);
        proof {
            lemma_element_written(old(self)@, self@, name@, text_markup(arcs_text(value@)));
        }
        r
    }

    fn encode_integer(
        &mut self,
        tag: Tag,
        constraints: Constraints,
        value: &num_bigint::BigInt,
        identifier: Option<&'static str>,
    ) -> (r: Result<(), EncodeError>)
        ensures
            encodes_element(
                old(self)@,
                fallback_name(name_view(identifier), INTEGER_TYPE_TAG@),
                text_markup(decimal_text(integer_value(*value))),
                final(self)@,
                r,
            ),
    {
        let name = self.begin(or_own_name(identifier, INTEGER_TYPE_TAG))?;
        self.write_integer(value)?;
        let r = self.end(name);
        proof {
            lemma_element_written(
                old(self)@,
                self@,
                name@,
                text_markup(decimal_text(integer_value(*value))),
            );
        }
        r
    }

    fn encode_null(&mut self, tag: Tag, identifier: Option<&'static str>) -> (r: Result<
        (),
        EncodeError,
    >)
        ensures
            encodes_element(
                old(self)@,
                fallback_name(name_view(identifier), NULL_TYPE_TAG@),
                Seq::empty(),
                final(self)@,
                r,
            ),
    {
        let name = self.begin(or_own_name(identifier, NULL_TYPE_TAG))?;
        self.write_null()?;
        let ghost started = self@;
        let r = self.end(name);
        proof {
            if old(self)@.intact {
                assert(started.markup + Seq::<Markup>::empty() =~= started.markup);
            }
            lemma_element_written(old(self)@, self@, name@, Seq::empty());
        }
        r
    }

    fn encode_octet_string(
        &mut self,
        tag: Tag,
        constraints: Constraints,
        value: &[u8],
        identifier: Option<&'static str>,
    ) -> (r: Result<(), EncodeError>)
        ensures
            encodes_element(
                old(self)@,
                fallback_name(name_view(identifier), OCTET_STRING_TYPE_TAG@),
                octets_markup(value@),
                final(self)@,
                r,
            ),
    {
        let name = self.begin(or_own_name(identifier, OCTET_STRING_TYPE_TAG))?;
        self.write_octet_string(value)?;
        let r = self.end(name);
        proof {
            lemma_element_written(old(self)@, self@, name@, octets_markup(value@));
        }
        r
    }

    fn encode_general_string(
        &mut self,
        tag: Tag,
        constraints: Constraints,
        value: &GeneralString,
        identifier: Option<&'static str>,
    ) -> (r: Result<(), EncodeError>)
        ensures
            encodes_bytes(
                old(self)@,
                fallback_name(name_view(identifier), GENERAL_STRING_TYPE_TAG@),
                value.bytes@,
                final(self)@,
                r,
            ),
    {
        self.encode_bytes(or_own_name(identifier, GENERAL_STRING_TYPE_TAG), &value.bytes)
    }

    fn encode_utf8_string(
        &mut self,
        tag: Tag,
        constraints: Constraints,
        value: &str,
        identifier: Option<&'static str>,
    ) -> (r: Result<(), EncodeError>)
        ensures
            encodes_element(
                old(self)@,
                fallback_name(name_view(identifier), UTF8_STRING_TYPE_TAG@),
                text_markup(value@),
                final(self)@,
                r,
            ),
    {
        let name = self.begin(or_own_name(identifier, UTF8_STRING_TYPE_TAG))?;
        self.write_string_type(value)?;
        let r = self.end(name);
        proof {
            lemma_element_written(old(self)@, self@, name@, text_markup(value@));
        }
        r
    }

    fn encode_visible_string(
        &mut self,
        tag: Tag,
        constraints: Constraints,
        value: &VisibleString,
        identifier: Option<&'static str>,
    ) -> (r: Result<(), EncodeError>)
        ensures
            encodes_bytes(
                old(self)@,
                fallback_name(name_view(identifier), VISIBLE_STRING_TYPE_TAG@),
                value.bytes@,
                final(self)@,
                r,
            ),
    {
        self.encode_bytes(or_own_name(identifier, VISIBLE_STRING_TYPE_TAG), &value.bytes)
    }

    fn encode_ia5_string(
        &mut self,
        tag: Tag,
        constraints: Constraints,
        value: &Ia5String,
        identifier: Option<&'static str>,
    ) -> (r: Result<(), EncodeError>)
        ensures
            encodes_bytes(
                old(self)@,
                fallback_name(name_view(identifier), IA5_STRING_TYPE_TAG@),
                value.bytes@,
                final(self)@,
                r,
            ),
    {
        self.encode_bytes(or_own_name(identifier, IA5_STRING_TYPE_TAG), &value.bytes)
    }

    fn encode_printable_string(
        &mut self,
        tag: Tag,
        constraints: Constraints,
        value: &PrintableString,
        identifier: Option<&'static str>,
    ) -> (r: Result<(), EncodeError>)
        ensures
            encodes_bytes(
                old(self)@,
                fallback_name(name_view(identifier), PRINTABLE_STRING_TYPE_TAG@),
                value.bytes@,
                final(self)@,
                r,
            ),
    {
        self.encode_bytes(or_own_name(identifier, PRINTABLE_STRING_TYPE_TAG), &value.bytes)
    }

    fn encode_numeric_string(
        &mut self,
        tag: Tag,
        constraints: Constraints,
        value: &NumericString,
        identifier: Option<&'static str>,
    ) -> (r: Result<(), EncodeError>)
        ensures
            encodes_bytes(
                old(self)@,
                fallback_name(name_view(identifier), NUMERIC_STRING_TYPE_TAG@),
                value.bytes@,
                final(self)@,
                r,
            ),
    {
        self.encode_bytes(or_own_name(identifier, NUMERIC_STRING_TYPE_TAG), &value.bytes)
    }

    fn encode_teletex_string(
        &mut self,
        tag: Tag,
        constraints: Constraints,
        value: &TeletexString,
        identifier: Option<&'static str>,
    ) -> (r: Result<(), EncodeError>)
        ensures
            encodes_bytes(
                old(self)@,
                fallback_name(name_view(identifier), TELETEX_STRING_TYPE_TAG@),
                value.bytes@,
                final(self)@,
                r,
            ),
    {
        self.encode_bytes(or_own_name(identifier, TELETEX_STRING_TYPE_TAG), &value.bytes)
    }

    fn encode_bmp_string(
        &mut self,
        tag: Tag,
        constraints: Constraints,
        value: &BmpString,
        identifier: Option<&'static str>,
    ) -> (r: Result<(), EncodeError>)
        ensures
            encodes_bytes(
                old(self)@,
                fallback_name(name_view(identifier), BMP_STRING_TYPE_TAG@),
                value.bytes@,
                final(self)@,
                r,
            ),
    {
        self.encode_bytes(or_own_name(identifier, BMP_STRING_TYPE_TAG), &value.bytes)
    }

    fn encode_generalized_time(
        &mut self,
        tag: Tag,
        value: &GeneralizedTime,
        identifier: Option<&'static str>,
    ) -> (r: Result<(), EncodeError>)
        ensures
            encodes_bytes(
                old(self)@,
                fallback_name(name_view(identifier), GENERALIZED_TIME_TYPE_TAG@),
                value.canonical@,
                final(self)@,
                r,
            ),
    {
        let name = self.begin(or_own_name(identifier, GENERALIZED_TIME_TYPE_TAG))?;
        self.write_generalized_time(value)?;
        let r = self.end(name);
        proof {
            lemma_element_written(
                old(self)@,
                self@,
                name@,
                text_markup(decode_utf8(value.canonical@)),
            );
        }
        r
    }

    fn encode_utc_time(
        &mut self,
        tag: Tag,
        value: &UtcTime,
        identifier: Option<&'static str>,
    ) -> (r: Result<(), EncodeError>)
        ensures
            encodes_bytes(
                old(self)@,
                fallback_name(name_view(identifier), UTC_TIME_TYPE_TAG@),
                value.canonical@,
                final(self)@,
                r,
            ),
    {
        let name = self.begin(or_own_name(identifier, UTC_TIME_TYPE_TAG))?;
        self.write_utc_time(value)?;
        let r = self.end(name);
        proof {
            lemma_element_written(
                old(self)@,
                self@,
                name@,
                text_markup(decode_utf8(value.canonical@)),
            );
        }
        r
    }

    open spec fn prefix_opened(
        pre: Self,
        tag: Tag,
        identifier: Option<Seq<char>>,
        opened: Self,
    ) -> bool {
        opened == pre
    }

    open spec fn prefix_closed(
        written: Self,
        tag: Tag,
        inner: Result<(), EncodeError>,
        post: Self,
        r: Result<(), EncodeError>,
    ) -> bool {
        post == written && same_outcome(inner, r)
    }

    /// XML has no tags: a value under an explicit tag is written as the
    /// value itself.
    fn encode_explicit_prefix<V: Encode<Self>>(
        &mut self,
        tag: Tag,
        value: &V,
        identifier: Option<&'static str>,
    ) -> (r: Result<(), EncodeError>) {
        value.encode(self, identifier)
    }

    /// A sequence is an element that holds the elements of its fields, each
    /// named after the field. The field names of `C` are put on the stack
    /// before `encoder_scope` runs, and each value that it writes takes the
    /// next one.
    fn encode_sequence<C: Constructed, F: FnOnce(&mut Self) -> Result<(), EncodeError>>(
        &mut self,
        tag: Tag,
        encoder_scope: F,
        identifier: Option<&'static str>,
    ) -> (r: Result<(), EncodeError>)
        ensures
            old(self)@.intact ==> match next_name(
                old(self)@.scopes,
                fallback_name(name_view(identifier), SEQUENCE_TYPE_TAG@),
            ) {
                None => r is Err && r->Err_0.is_field_name(),
                Some((name, scopes)) => exists|
                    fields: Vec<Field>,
                    e: &mut Self,
                    inner: Result<(), EncodeError>,
                |
                    #![trigger call_ensures(C::fields, (), fields), call_ensures(encoder_scope, (e,), inner)]
                    {
                        &&& call_ensures(C::fields, (), fields)
                        &&& e@ == old(self)@.entered(
                            scopes,
                            name,
                            Scope::Fields(field_names(fields@)),
                        )
                        &&& call_ensures(encoder_scope, (e,), inner)
                        &&& leaves_scope(final(e)@, name, inner, final(self)@, r)
                    },
            },
    {
        let names = names_of::<C>();
        let name = self.begin(or_own_name(identifier, SEQUENCE_TYPE_TAG))?;
        self.open_fields(names);
        let inner = encoder_scope(self);
        self.leave(name, inner)
    }

    open spec fn collection_refused(
        pre: Self,
        set: bool,
        tag: Tag,
        identifier: Option<Seq<char>>,
        r: Result<(), EncodeError>,
    ) -> bool {
        !pre@.intact || (next_name(pre@.scopes, collection_name(set, identifier)) is None
            && r is Err && r->Err_0.is_field_name())
    }

    open spec fn collection_opened(
        pre: Self,
        set: bool,
        tag: Tag,
        identifier: Option<Seq<char>>,
        opened: Self,
    ) -> bool {
        match next_name(pre@.scopes, collection_name(set, identifier)) {
            None => false,
            Some((name, scopes)) => opened@ == pre@.entered(scopes, name, Scope::Items),
        }
    }

    open spec fn collection_closed(
        pre: Self,
        set: bool,
        tag: Tag,
        identifier: Option<Seq<char>>,
        written: Self,
        post: Self,
        r: Result<(), EncodeError>,
    ) -> bool {
        leaves_scope(
            written@,
            given_name(pre@.scopes, collection_name(set, identifier)),
            Ok::<(), EncodeError>(()),
            post@,
            r,
        )
    }

    /// A sequence of values is an element that holds the elements of the
    /// values, each named after its own type.
    fn encode_sequence_of<V: Encode<Self>>(
        &mut self,
        tag: Tag,
        value: &[V],
        constraints: Constraints,
        identifier: Option<&'static str>,
    ) -> (r: Result<(), EncodeError>) {
        self.encode_collection(false, value, identifier)
    }

    /// A set is written as a sequence is.
    fn encode_set<C: Constructed, F: FnOnce(&mut Self) -> Result<(), EncodeError>>(
        &mut self,
        tag: Tag,
        value: F,
        identifier: Option<&'static str>,
    ) -> (r: Result<(), EncodeError>)
        ensures
            old(self)@.intact ==> match next_name(
                old(self)@.scopes,
                fallback_name(name_view(identifier), SET_TYPE_TAG@),
            ) {
                None => r is Err && r->Err_0.is_field_name(),
                Some((name, scopes)) => exists|
                    fields: Vec<Field>,
                    e: &mut Self,
                    inner: Result<(), EncodeError>,
                |
                    #![trigger call_ensures(C::fields, (), fields), call_ensures(value, (e,), inner)]
                    {
                        &&& call_ensures(C::fields, (), fields)
                        &&& e@ == old(self)@.entered(
                            scopes,
                            name,
                            Scope::Fields(field_names(fields@)),
                        )
                        &&& call_ensures(value, (e,), inner)
                        &&& leaves_scope(final(e)@, name, inner, final(self)@, r)
                    },
            },
    {
        let names = names_of::<C>();
        let name = self.begin(or_own_name(identifier, SET_TYPE_TAG))?;
        self.open_fields(names);
        let inner = value(self);
        self.leave(name, inner)
    }

    /// A set of values is written as a sequence of values is.
    fn encode_set_of<V: Encode<Self>>(
        &mut self,
        tag: Tag,
        value: &SetOf<V>,
        constraints: Constraints,
        identifier: Option<&'static str>,
    ) -> (r: Result<(), EncodeError>) {
        self.encode_collection(true, value.items.as_slice(), identifier)
    }

    fn encode_some<V: Encode<Self>>(
        &mut self,
        value: &V,
        identifier: Option<&'static str>,
    ) -> (r: Result<(), EncodeError>) {
        value.encode(self, identifier)
    }

    fn encode_some_with_tag<V: Encode<Self>>(
        &mut self,
        tag: Tag,
        value: &V,
        identifier: Option<&'static str>,
    ) -> (r: Result<(), EncodeError>) {
        self.encode_some_with_tag_and_constraints(tag, Constraints::none(), value, identifier)
    }

    fn encode_some_with_tag_and_constraints<V: Encode<Self>>(
        &mut self,
        tag: Tag,
        constraints: Constraints,
        value: &V,
        identifier: Option<&'static str>,
    ) -> (r: Result<(), EncodeError>) {
        value.encode_with_tag_and_constraints(self, tag, constraints, identifier)
    }

    fn encode_none<V: Encode<Self>>(&mut self) -> (r: Result<(), EncodeError>) {
        self.encode_none_with_tag(V::tag())
    }

    /// For a field that is absent nothing is written: its name is taken off
    /// the stack and dropped.
    fn encode_none_with_tag(&mut self, tag: Tag) -> (r: Result<(), EncodeError>)
        ensures
            r is Ok,
            final(self)@ == (EncoderView { scopes: skip_name(old(self)@.scopes), ..old(self)@ }),
    {
        self.drop_name();
        Ok(())
    }

    /// A field whose value is the default is not written: only its name is
    /// taken off the stack. Any other value is written as a present field.
    fn encode_or_default<V: Encode<Self> + Default + PartialEq>(
        &mut self,
        value: &V,
        identifier: Option<&'static str>,
    ) -> (r: Result<(), EncodeError>)
        ensures
            exists|d: V, differs: bool|
                {
                    &&& call_ensures(V::default, (), d)
                    &&& #[trigger] call_ensures(V::ne, (value, &d), differs)
                    &&& differs ==> exists|e: &mut Self, inner: Result<(), EncodeError>|
                        {
                            &&& *e == *old(self)
                            &&& *final(e) == *final(self)
                            &&& #[trigger] call_ensures(V::encode, (value, e, identifier), inner)
                            &&& same_outcome(inner, r)
                        }
                    &&& !differs ==> r is Ok && final(self)@ == (EncoderView {
                        scopes: skip_name(old(self)@.scopes),
                        ..old(self)@
                    })
                },
    {
        let d = V::default();
        let differs = *value != d;
        if differs {
            self.encode_some(value, identifier)
        } else {
            self.encode_none::<V>()
        }
    }

    /// A field whose value is the default is not written: only its name is
    /// taken off the stack. Any other value is written as a present field.
    fn encode_with_tag_or_default<V: Encode<Self> + Default + PartialEq>(
        &mut self,
        tag: Tag,
        value: &V,
        identifier: Option<&'static str>,
    ) -> (r: Result<(), EncodeError>)
        ensures
            exists|d: V, differs: bool|
                {
                    &&& call_ensures(V::default, (), d)
                    &&& #[trigger] call_ensures(V::ne, (value, &d), differs)
                    &&& differs ==> exists|e: &mut Self, inner: Result<(), EncodeError>|
                        {
                            &&& *e == *old(self)
                            &&& *final(e) == *final(self)
                            &&& #[trigger] call_ensures(
                                V::encode_with_tag_and_constraints,
                                (value, e, tag, Constraints::none(), identifier),
                                inner,
                            )
                            &&& same_outcome(inner, r)
                        }
                    &&& !differs ==> r is Ok && final(self)@ == (EncoderView {
                        scopes: skip_name(old(self)@.scopes),
                        ..old(self)@
                    })
                },
    {
        let d = V::default();
        let differs = *value != d;
        if differs {
            self.encode_some_with_tag(tag, value, identifier)
        } else {
            self.encode_none::<V>()
        }
    }

    /// A field whose value is the default is not written: only its name is
    /// taken off the stack. Any other value is written as a present field.
    fn encode_default<V: Encode<Self> + PartialEq, D: FnOnce() -> V>(
        &mut self,
        value: &V,
        identifier: Option<&'static str>,
        default: D,
    ) -> (r: Result<(), EncodeError>)
        ensures
            exists|d: V, differs: bool|
                {
                    &&& call_ensures(default, (), d)
                    &&& #[trigger] call_ensures(V::ne, (value, &d), differs)
                    &&& differs ==> exists|e: &mut Self, inner: Result<(), EncodeError>|
                        {
                            &&& *e == *old(self)
                            &&& *final(e) == *final(self)
                            &&& #[trigger] call_ensures(V::encode, (value, e, identifier), inner)
                            &&& same_outcome(inner, r)
                        }
                    &&& !differs ==> r is Ok && final(self)@ == (EncoderView {
                        scopes: skip_name(old(self)@.scopes),
                        ..old(self)@
                    })
                },
    {
        let d = default();
        let differs = *value != d;
        if differs {
            self.encode_some(value, identifier)
        } else {
            self.encode_none::<V>()
        }
    }

    /// A field whose value is the default is not written: only its name is
    /// taken off the stack. Any other value is written as a present field.
    fn encode_default_with_tag<V: Encode<Self> + PartialEq, D: FnOnce() -> V>(
        &mut self,
        tag: Tag,
        value: &V,
        identifier: Option<&'static str>,
        default: D,
    ) -> (r: Result<(), EncodeError>)
        ensures
            exists|d: V, differs: bool|
                {
                    &&& call_ensures(default, (), d)
                    &&& #[trigger] call_ensures(V::ne, (value, &d), differs)
                    &&& differs ==> exists|e: &mut Self, inner: Result<(), EncodeError>|
                        {
                            &&& *e == *old(self)
                            &&& *final(e) == *final(self)
                            &&& #[trigger] call_ensures(
                                V::encode_with_tag_and_constraints,
                                (value, e, tag, Constraints::none(), identifier),
                                inner,
                            )
                            &&& same_outcome(inner, r)
                        }
                    &&& !differs ==> r is Ok && final(self)@ == (EncoderView {
                        scopes: skip_name(old(self)@.scopes),
                        ..old(self)@
                    })
                },
    {
        let d = default();
        let differs = *value != d;
        if differs {
            self.encode_some_with_tag(tag, value, identifier)
        } else {
            self.encode_none_with_tag(tag)
        }
    }

    /// A field whose value is the default is not written: only its name is
    /// taken off the stack. Any other value is written as a present field.
    fn encode_default_with_tag_and_constraints<V: Encode<Self> + PartialEq, D: FnOnce() -> V>(
        &mut self,
        tag: Tag,
        constraints: Constraints,
        value: &V,
        identifier: Option<&'static str>,
        default: D,
    ) -> (r: Result<(), EncodeError>)
        ensures
            exists|d: V, differs: bool|
                {
                    &&& call_ensures(default, (), d)
                    &&& #[trigger] call_ensures(V::ne, (value, &d), differs)
                    &&& differs ==> exists|e: &mut Self, inner: Result<(), EncodeError>|
                        {
                            &&& *e == *old(self)
                            &&& *final(e) == *final(self)
                            &&& #[trigger] call_ensures(
                                V::encode_with_tag_and_constraints,
                                (value, e, tag, constraints, identifier),
                                inner,
                            )
                            &&& same_outcome(inner, r)
                        }
                    &&& !differs ==> r is Ok && final(self)@ == (EncoderView {
                        scopes: skip_name(old(self)@.scopes),
                        ..old(self)@
                    })
                },
    {
        let d = default();
        let differs = *value != d;
        if differs {
            self.encode_some_with_tag_and_constraints(tag, constraints, value, identifier)
        } else {
            self.encode_none_with_tag(tag)
        }
    }

    /// A choice is the element of the alternative that is present, which
    /// `encode_fn` writes under the name that it gives. As a field, that
    /// element stands inside the element of the field.
    fn encode_choice<V: Encode<Self> + Choice, F: FnOnce(&mut Self) -> Result<Tag, EncodeError>>(
        &mut self,
        constraints: Constraints,
        tag: Tag,
        encode_fn: F,
        identifier: Option<&'static str>,
    ) -> (r: Result<(), EncodeError>)
        ensures
            old(self)@.intact ==> if in_fields(old(self)@.scopes) {
                match next_name(old(self)@.scopes, None) {
                    None => r is Err && r->Err_0.is_field_name(),
                    Some((name, scopes)) => exists|e: &mut Self, inner: Result<Tag, EncodeError>|
                        {
                            &&& e@ == old(self)@.entered(scopes, name, Scope::Items)
                            &&& #[trigger] call_ensures(encode_fn, (e,), inner)
                            &&& leaves_scope(final(e)@, name, inner, final(self)@, r)
                        },
                }
            } else {
                exists|e: &mut Self, inner: Result<Tag, EncodeError>|
                    {
                        &&& e@ == (EncoderView {
                            scopes: old(self)@.scopes.push(Scope::Items),
                            ..old(self)@
                        })
                        &&& #[trigger] call_ensures(encode_fn, (e,), inner)
                        &&& match inner {
                            Err(error) => r is Err && r->Err_0 == error,
                            Ok(_) => r is Ok && final(self)@ == final(e)@.closed(),
                        }
                    }
            },
    {
        if self.field_tag_stack.is_in_fields() {
            let name = self.begin(None)?;
            self.open_items();
            let inner = encode_fn(self);
            self.leave(name, inner)
        } else {
            self.open_items();
            let inner = encode_fn(self);
            match inner {
                Ok(_) => {
                    self.close_scope();
                    Ok(())
                },
                Err(error) => Err(error),
            }
        }
    }

    /// A field that a later revision added is written as any field is.
    fn encode_extension_addition<V: Encode<Self>>(
        &mut self,
        tag: Tag,
        constraints: Constraints,
        value: V,
    ) -> (r: Result<(), EncodeError>)
        ensures
            exists|e: &mut Self|
                *e == *old(self) && *final(e) == *final(self) && #[trigger] call_ensures(
                    V::encode_with_tag_and_constraints,
                    (&value, e, tag, constraints, None),
                    r,
                ),
    {
        value.encode_with_tag_and_constraints(self, tag, constraints, None)
    }

    /// A group of fields that a later revision added is written as a value
    /// is where it is present, and as an absent field where it is not.
    fn encode_extension_addition_group<V: Encode<Self> + Constructed>(
        &mut self,
        value: Option<&V>,
    ) -> (r: Result<(), EncodeError>)
        ensures
            match value {
                Some(group) => exists|e: &mut Self|
                    *e == *old(self) && *final(e) == *final(self) && #[trigger] call_ensures(
                        V::encode,
                        (group, e, None),
                        r,
                    ),
                None => r is Ok && final(self)@ == (EncoderView {
                    scopes: skip_name(old(self)@.scopes),
                    ..old(self)@
                }),
            },
    {
        match value {
            Some(group) => group.encode(self, None),
            None => {
                self.drop_name();
                Ok(())
            },
        }
    }
}

/// An element that was started, filled and ended is the element as a whole.
proof fn lemma_element_written(
    pre: EncoderView,
    post: EncoderView,
    name: Seq<char>,
    body: Seq<Markup>,
)
    ensures
        post.markup == (pre.markup.push(Markup::Start(name)) + body).push(Markup::End(name))
            ==> post.markup == pre.markup + element(name, body),
        pre.open.push(local_name(name)).drop_last() == pre.open,
{
    assert((pre.markup.push(Markup::Start(name)) + body).push(Markup::End(name)) =~= pre.markup
        + element(name, body));
    assert(pre.open.push(local_name(name)).drop_last() =~= pre.open);
}

impl Encoder {
    /// Gives out the name of the element for the next value.
    fn take_name(&mut self, fallback: Option<&'static str>) -> (r: Result<
        &'static str,
        EncodeError,
    >)
        ensures
            final(self)@.markup == old(self)@.markup,
            final(self)@.open == old(self)@.open,
            final(self)@.intact == old(self)@.intact,
            match next_name(old(self)@.scopes, name_view(fallback)) {
                None => r is Err && r->Err_0.is_field_name() && final(self)@.scopes == old(
                    self,
                )@.scopes,
                Some((name, scopes)) => r is Ok && r->Ok_0@ == name && final(self)@.scopes
                    == scopes,
            },
    {
        match self.field_tag_stack.take_name(fallback) {
            Some(name) => Ok(name),
            None => Err(EncodeError::from_xer(XerEncodeErrorKind::FieldName)),
        }
    }

    /// Passes over the name of an absent field.
    fn drop_name(&mut self)
        ensures
            final(self)@ == (EncoderView { scopes: skip_name(old(self)@.scopes), ..old(self)@ }),
    {
        self.field_tag_stack.drop_name();
    }

    /// Opens the scope of the fields `names`.
    fn open_fields(&mut self, names: Vec<&'static str>)
        ensures
            final(self)@ == (EncoderView {
                scopes: old(self)@.scopes.push(Scope::Fields(names_view(names@))),
                ..old(self)@
            }),
    {
        self.field_tag_stack.open_fields(names);
    }

    /// Opens a scope whose values name themselves.
    fn open_items(&mut self)
        ensures
            final(self)@ == (EncoderView {
                scopes: old(self)@.scopes.push(Scope::Items),
                ..old(self)@
            }),
    {
        self.field_tag_stack.open_items();
    }

    /// Closes the innermost scope.
    fn close_scope(&mut self)
        ensures
            final(self)@ == old(self)@.closed(),
    {
        self.field_tag_stack.close_scope();
    }

    /// Closes the innermost scope and ends the element `name`, unless the
    /// scope failed.
    fn leave<T>(&mut self, name: &str, inner: Result<T, EncodeError>) -> (r: Result<
        (),
        EncodeError,
    >)
        ensures
            leaves_scope(old(self)@, name@, inner, final(self)@, r),
    {
        match inner {
            Err(error) => Err(error),
            Ok(_) => {
                self.close_scope();
                self.end(name)
            },
        }
    }

    /// Writes a value whose text is given as bytes.
    fn encode_bytes(&mut self, fallback: Option<&'static str>, bytes: &Vec<u8>) -> (r: Result<
        (),
        EncodeError,
    >)
        ensures
            encodes_bytes(old(self)@, name_view(fallback), bytes@, final(self)@, r),
    {
        let name = self.begin(fallback)?;
        self.write_bytes(bytes)?;
        let r = self.end(name);
        proof {
            lemma_element_written(old(self)@, self@, name@, text_markup(decode_utf8(bytes@)));
        }
        r
    }

    /// Writes a collection: the element of the collection around the
    /// elements of its items.
    fn encode_collection<V: Encode<Self>>(
        &mut self,
        set: bool,
        items: &[V],
        identifier: Option<&'static str>,
    ) -> (r: Result<(), EncodeError>)
        ensures
            <Self as crate::enc::Encoder>::collection_refused(
                *old(self),
                set,
                Tag::universal(0),
                name_view(identifier),
                r,
            ) || exists|states: Seq<Self>|
                #![trigger states.len()]
                {
                    &&& 1 <= states.len() <= items@.len() + 1
                    &&& <Self as crate::enc::Encoder>::collection_opened(
                        *old(self),
                        set,
                        Tag::universal(0),
                        name_view(identifier),
                        states[0],
                    )
                    &&& chained(
                        states,
                        |i: int, from: Self, to: Self|
                            exists|e: &mut Self, inner: Result<(), EncodeError>|
                                {
                                    &&& *e == from
                                    &&& *final(e) == to
                                    &&& #[trigger] call_ensures(
                                        V::encode,
                                        (&items@[i], e, None::<&'static str>),
                                        inner,
                                    )
                                    &&& inner is Ok
                                },
                    )
                    &&& if states.len() == items@.len() + 1 {
                        <Self as crate::enc::Encoder>::collection_closed(
                            *old(self),
                            set,
                            Tag::universal(0),
                            name_view(identifier),
                            states.last(),
                            *final(self),
                            r,
                        )
                    } else {
                        exists|e: &mut Self, inner: Result<(), EncodeError>|
                            {
                                &&& *e == states.last()
                                &&& #[trigger] call_ensures(
                                    V::encode,
                                    (&items@[states.len() - 1], e, None::<&'static str>),
                                    inner,
                                )
                                &&& inner is Err
                                &&& r is Err
                                &&& r->Err_0 == inner->Err_0
                            }
                    }
                },
    {
        let fallback = or_own_name(
            identifier,
            if set {
                SET_OF_TYPE_TAG
            } else {
                SEQUENCE_OF_TYPE_TAG
            },
        );
        let name = self.begin(fallback)?;
        self.open_items();
        let ghost opened = *self;
        let inner = self.encode_items(items);
        self.leave(name, inner)
    }

    /// Writes the items of a collection, each as it writes itself alone, up
    /// to the first that fails.
    fn encode_items<V: Encode<Self>>(&mut self, items: &[V]) -> (r: Result<(), EncodeError>)
        ensures
            exists|states: Seq<Self>|
                #![trigger states.len()]
                {
                    &&& 1 <= states.len() <= items@.len() + 1
                    &&& states[0] == *old(self)
                    &&& chained(
                        states,
                        |i: int, from: Self, to: Self|
                            exists|e: &mut Self, inner: Result<(), EncodeError>|
                                {
                                    &&& *e == from
                                    &&& *final(e) == to
                                    &&& #[trigger] call_ensures(
                                        V::encode,
                                        (&items@[i], e, None::<&'static str>),
                                        inner,
                                    )
                                    &&& inner is Ok
                                },
                    )
                    &&& if states.len() == items@.len() + 1 {
                        r is Ok && *final(self) == states.last()
                    } else {
                        exists|e: &mut Self, inner: Result<(), EncodeError>|
                            {
                                &&& *e == states.last()
                                &&& #[trigger] call_ensures(
                                    V::encode,
                                    (&items@[states.len() - 1], e, None::<&'static str>),
                                    inner,
                                )
                                &&& inner is Err
                                &&& r is Err
                                &&& r->Err_0 == inner->Err_0
                            }
                    }
                },
    {
        let ghost mut states: Seq<Self> = seq![*self];
        let ghost step = |i: int, from: Self, to: Self|
            exists|e: &mut Self, inner: Result<(), EncodeError>|
                {
                    &&& *e == from
                    &&& *final(e) == to
                    &&& #[trigger] call_ensures(
                        V::encode,
                        (&items@[i], e, None::<&'static str>),
                        inner,
                    )
                    &&& inner is Ok
                };
        let mut i: usize = 0;
        while i < items.len()
            invariant
                i <= items.len(),
                states.len() == i + 1,
                states[0] == *old(self),
                states.last() == *self,
                step == (|i: int, from: Self, to: Self|
                            exists|e: &mut Self, inner: Result<(), EncodeError>|
                                {
                                    &&& *e == from
                                    &&& *final(e) == to
                                    &&& #[trigger] call_ensures(
                                        V::encode,
                                        (&items@[i], e, None::<&'static str>),
                                        inner,
                                    )
                                    &&& inner is Ok
                                }),
                chained(states, step),
            decreases items.len() - i,
        {
            let ghost before = states;
            let inner = items[i].encode(self, None);
            match inner {
                Err(error) => {
                    return Err(error);
                },
                Ok(_) => {},
            }
            proof {
                states = states.push(*self);
                assert(step(i as int, before.last(), *self));
                assert forall|j: int| 0 <= j < states.len() - 1 implies #[trigger] step(
                    j,
                    states[j],
                    states[j + 1],
                ) by {
                    if j < i {
                        assert(step(j, before[j], before[j + 1]));
                    }
                }
            }
            i = i + 1;
        }
        Ok(())
    }
}

/// The name for a collection that no field names.
pub open spec fn collection_name(set: bool, identifier: Option<Seq<char>>) -> Option<Seq<char>> {
    fallback_name(
        identifier,
        if set {
            SET_OF_TYPE_TAG@
        } else {
            SEQUENCE_OF_TYPE_TAG@
        },
    )
}

} // verus!
