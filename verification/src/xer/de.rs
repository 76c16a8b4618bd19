//! Reading values from XML.

use crate::de::{Decode, Outcome};
use crate::error::{DecodeError, DecodeErrorKind, XerDecodeErrorKind};
use crate::integer::{integer_from_decimal, integer_value};
use crate::types::{
    field_names, BitString, BmpString, Codec, Constraints, Constructed, Field, GeneralString,
    GeneralizedTime, Ia5String, NumericString, ObjectIdentifier, PrintableString, Tag,
    TeletexString, UtcTime, VisibleString,
};
use crate::xer::markup::{
    document_events, is_last, new_reader, pull, reader_stream, Token, XmlReader,
};
use crate::xer::names::{
    in_fields, names_of, next_name, skip_name, FieldTagStack, Scope,
};
use crate::xer::text::{
    decimal_value, is_bits_text, is_decimal, is_decimal_text, is_hex_text, read_arcs, read_bits,
    read_octets, quoted, quoted_text, same_text, text_arcs, text_bits, text_bytes,
};
use crate::xer::{
    BIT_STRING_TYPE_TAG, BMP_STRING_TYPE_TAG, BOOLEAN_FALSE_TAG, BOOLEAN_TRUE_TAG,
    BOOLEAN_TYPE_TAG, GENERALIZED_TIME_TYPE_TAG, GENERAL_STRING_TYPE_TAG, IA5_STRING_TYPE_TAG,
    INTEGER_TYPE_TAG, NULL_TYPE_TAG, NUMERIC_STRING_TYPE_TAG, OBJECT_IDENTIFIER_TYPE_TAG,
    OCTET_STRING_TYPE_TAG, PRINTABLE_STRING_TYPE_TAG, SEQUENCE_TYPE_TAG,
    TELETEX_STRING_TYPE_TAG, UTC_TIME_TYPE_TAG, UTF8_STRING_TYPE_TAG, VISIBLE_STRING_TYPE_TAG,
};
use vstd::prelude::*;
use vstd::string::StrSliceExecFns;
use vstd::utf8::encode_utf8;

verus! {

// ---------------------------------------------------------------------------
// What reading gives
// ---------------------------------------------------------------------------
/// Why reading fails, with what the error says of it.
pub enum Fault {
    /// The XML reader could not parse the input; its message.
    Parser(Seq<char>),
    /// The input ended where more was expected.
    EndOfInput,
    /// The next token is of another kind, or holds another text, than the
    /// requested type has: what was needed and what was found.
    TypeMismatch { needed: Seq<char>, found: Seq<char> },
    /// The next element has another name than the requested one: the name
    /// that was needed and the one that was found.
    WrongTag { needed: Seq<char>, found: Seq<char> },
    /// The text breaks a rule of the textual grammar: the rule.
    SpecViolation(Seq<char>),
    /// More fields are read than the constructed type declares.
    FieldName,
}

impl Fault {
    /// Whether `error` reports this fault: it is of the XML codec, of the
    /// kind of the fault, and holds what the fault holds.
    pub open spec fn is(self, error: DecodeError) -> bool {
        error.codec == Codec::Xer && match self {
            Fault::Parser(message) => error.kind matches DecodeErrorKind::Xer(
                XerDecodeErrorKind::XmlParser { details },
            ) && details@ == message,
            Fault::EndOfInput => error.kind == DecodeErrorKind::Xer(
                XerDecodeErrorKind::EndOfXmlInput,
            ),
            Fault::TypeMismatch { needed, found } => error.kind matches DecodeErrorKind::Xer(
                XerDecodeErrorKind::XmlTypeMismatch { needed: n, found: f },
            ) && n@ == needed && f@ == found,
            Fault::WrongTag { needed, found } => error.kind matches DecodeErrorKind::Xer(
                XerDecodeErrorKind::XmlTag { needed: n, found: f },
            ) && n@ == needed && f@ == found,
            Fault::SpecViolation(rule) => error.kind matches DecodeErrorKind::Xer(
                XerDecodeErrorKind::SpecViolation { details },
            ) && details@ == rule,
            Fault::FieldName => error.kind == DecodeErrorKind::Xer(XerDecodeErrorKind::FieldName),
        }
    }
}

/// The rule for the XML declaration, as an error cites it.
pub const PROLOG_RULE: &'static str =
    "the XML prolog shall either be empty or give the version 1.0 and the encoding UTF-8";

/// The rule for the text of a bit string, as an error cites it.
pub const BIT_STRING_RULE: &'static str =
    "an xmlbstring shall consist of an arbitrary number (possibly zero) of zeros, ones or white-space";

/// The rule for the text of an octet string, as an error cites it.
pub const OCTET_STRING_RULE: &'static str =
    "an xmlhstring shall consist of an even number of hexadecimal digits or white-space";

/// The rule for the text of an integer, as an error cites it.
pub const INTEGER_RULE: &'static str =
    "an integer shall consist of decimal digits, which a minus sign may precede";

/// The rule for the text of an object identifier, as an error cites it.
pub const OBJECT_IDENTIFIER_RULE: &'static str =
    "an object identifier shall consist of numbers with a dot between one and the next";

/// What an error says was needed where the start of an element was.
pub const NEEDED_START: &'static str = "the start of an element";

/// What an error says was needed where the end of an element was.
pub const NEEDED_END: &'static str = "the end of an element";

/// What an error says was needed where character data was.
pub const NEEDED_TEXT: &'static str = "character data";

/// What an error says was needed where a boolean was.
pub const NEEDED_TRUTH: &'static str = "`true` or `false`";

/// What a decoder holds, as a specification value.
#[verifier::ext_equal]
pub struct DecoderView {
    /// The open scopes, the innermost last.
    pub scopes: Seq<Scope>,
    /// The token that is handed out next; `None` at the end of the document.
    pub lookahead: Option<Token>,
    /// The events that the reader has yet to give, the last one being the
    /// end of the document or the error at which it stops.
    pub stream: Seq<Result<Token, String>>,
}

/// What reading gives: a value and what the decoder holds after it, or the
/// reason why it failed.
pub enum Reading<T> {
    Read(T, DecoderView),
    Failed(Fault),
}

impl DecoderView {
    /// The decoder over the events of a document, before the first is handed
    /// out.
    pub open spec fn initial(events: Seq<Result<Token, String>>) -> DecoderView {
        DecoderView {
            scopes: Seq::empty(),
            lookahead: match events[0] {
                Ok(token) => Some(token),
                Err(_) => None,
            },
            stream: if is_last(events[0]) {
                events
            } else {
                events.skip(1)
            },
        }
    }

    /// After the reader has given one more event, which becomes the token to
    /// hand out next.
    pub open spec fn advanced(self) -> DecoderView {
        match self.stream[0] {
            Ok(token) => DecoderView {
                lookahead: if token is EndDocument {
                    None
                } else {
                    Some(token)
                },
                stream: if token is EndDocument {
                    self.stream
                } else {
                    self.stream.skip(1)
                },
                ..self
            },
            Err(_) => self,
        }
    }

    /// Handing out the next token. The reader is asked for one more event
    /// first, and its error is the decoder's.
    pub open spec fn token(self) -> Reading<Token> {
        match self.stream[0] {
            Err(message) => Reading::Failed(Fault::Parser(message@)),
            Ok(_) => match self.lookahead {
                None => Reading::Failed(Fault::EndOfInput),
                Some(token) => Reading::Read(token, self.advanced()),
            },
        }
    }

    /// Reading the start of the element `name`.
    pub open spec fn start(self, name: Seq<char>) -> Reading<()> {
        match self.token() {
            Reading::Failed(fault) => Reading::Failed(fault),
            Reading::Read(token, next) => match token {
                Token::StartElement { name: found } => if found@ == name {
                    Reading::Read((), next)
                } else {
                    Reading::Failed(Fault::WrongTag { needed: name, found: found@ })
                },
                _ => Reading::Failed(
                    Fault::TypeMismatch { needed: NEEDED_START@, found: description(token) },
                ),
            },
        }
    }

    /// Reading the end of the element `name`.
    pub open spec fn end(self, name: Seq<char>) -> Reading<()> {
        match self.token() {
            Reading::Failed(fault) => Reading::Failed(fault),
            Reading::Read(token, next) => match token {
                Token::EndElement { name: found } => if found@ == name {
                    Reading::Read((), next)
                } else {
                    Reading::Failed(Fault::WrongTag { needed: name, found: found@ })
                },
                _ => Reading::Failed(
                    Fault::TypeMismatch { needed: NEEDED_END@, found: description(token) },
                ),
            },
        }
    }

    /// Reading the text of an element, which is empty where the end of the
    /// element comes next.
    pub open spec fn text(self) -> Reading<Seq<char>> {
        match self.lookahead {
            None => Reading::Failed(Fault::EndOfInput),
            Some(Token::Characters(text)) => match self.token() {
                Reading::Failed(fault) => Reading::Failed(fault),
                Reading::Read(_, next) => Reading::Read(text@, next),
            },
            Some(Token::Whitespace(text)) => match self.token() {
                Reading::Failed(fault) => Reading::Failed(fault),
                Reading::Read(_, next) => Reading::Read(text@, next),
            },
            Some(Token::EndElement { .. }) => Reading::Read(Seq::empty(), self),
            Some(other) => Reading::Failed(
                Fault::TypeMismatch { needed: NEEDED_TEXT@, found: description(other) },
            ),
        }
    }

    /// Reading the start of the element for the next value: the name that
    /// was taken, and the decoder inside the element.
    pub open spec fn entered(self, fallback: Option<Seq<char>>) -> Reading<Seq<char>> {
        match next_name(self.scopes, fallback) {
            None => Reading::Failed(Fault::FieldName),
            Some((name, scopes)) => match (DecoderView { scopes, ..self }).start(name) {
                Reading::Failed(fault) => Reading::Failed(fault),
                Reading::Read(_, next) => Reading::Read(name, next),
            },
        }
    }

    /// Reading the element for the next value as a text that meets `valid`;
    /// a text that does not breaks `rule`.
    pub open spec fn text_element(
        self,
        fallback: Option<Seq<char>>,
        valid: spec_fn(Seq<char>) -> bool,
        rule: Seq<char>,
    ) -> Reading<Seq<char>> {
        match self.entered(fallback) {
            Reading::Failed(fault) => Reading::Failed(fault),
            Reading::Read(name, inside) => match inside.text() {
                Reading::Failed(fault) => Reading::Failed(fault),
                Reading::Read(text, after) => if !valid(text) {
                    Reading::Failed(Fault::SpecViolation(rule))
                } else {
                    match after.end(name) {
                        Reading::Failed(fault) => Reading::Failed(fault),
                        Reading::Read(_, post) => Reading::Read(text, post),
                    }
                },
            },
        }
    }

    /// Reading what a boolean element holds: an empty element named `true`
    /// or `false`, or one of these words as text.
    pub open spec fn truth(self) -> Reading<bool> {
        match self.lookahead {
            None => Reading::Failed(Fault::EndOfInput),
            Some(Token::StartElement { name }) => if name@ == BOOLEAN_TRUE_TAG@ || name@
                == BOOLEAN_FALSE_TAG@ {
                match self.start(name@) {
                    Reading::Failed(fault) => Reading::Failed(fault),
                    Reading::Read(_, inside) => match inside.end(name@) {
                        Reading::Failed(fault) => Reading::Failed(fault),
                        Reading::Read(_, post) => Reading::Read(name@ == BOOLEAN_TRUE_TAG@, post),
                    },
                }
            } else {
                Reading::Failed(Fault::TypeMismatch { needed: NEEDED_TRUTH@, found: name@ })
            },
            Some(Token::Characters(text)) => match self.token() {
                Reading::Failed(fault) => Reading::Failed(fault),
                Reading::Read(_, post) => if text@ == BOOLEAN_TRUE_TAG@ {
                    Reading::Read(true, post)
                } else if text@ == BOOLEAN_FALSE_TAG@ {
                    Reading::Read(false, post)
                } else {
                    Reading::Failed(
                        Fault::TypeMismatch { needed: NEEDED_TRUTH@, found: quoted_text(text@) },
                    )
                },
            },
            Some(other) => Reading::Failed(
                Fault::TypeMismatch { needed: NEEDED_TRUTH@, found: description(other) },
            ),
        }
    }

    /// Reading a boolean.
    pub open spec fn boolean(self) -> Reading<bool> {
        match self.entered(Some(BOOLEAN_TYPE_TAG@)) {
            Reading::Failed(fault) => Reading::Failed(fault),
            Reading::Read(name, inside) => match inside.truth() {
                Reading::Failed(fault) => Reading::Failed(fault),
                Reading::Read(value, after) => match after.end(name) {
                    Reading::Failed(fault) => Reading::Failed(fault),
                    Reading::Read(_, post) => Reading::Read(value, post),
                },
            },
        }
    }

    /// Reading the null value: an element without content.
    pub open spec fn null(self) -> Reading<()> {
        match self.entered(Some(NULL_TYPE_TAG@)) {
            Reading::Failed(fault) => Reading::Failed(fault),
            Reading::Read(name, inside) => inside.end(name),
        }
    }

    /// Reading a bit string, as its text.
    pub open spec fn bit_string(self) -> Reading<Seq<char>> {
        self.text_element(
            Some(BIT_STRING_TYPE_TAG@),
            |text: Seq<char>| is_bits_text(text),
            BIT_STRING_RULE@,
        )
    }

    /// Reading an octet string, as its text.
    pub open spec fn octet_string(self) -> Reading<Seq<char>> {
        self.text_element(
            Some(OCTET_STRING_TYPE_TAG@),
            |text: Seq<char>| is_hex_text(text),
            OCTET_STRING_RULE@,
        )
    }

    /// Reading an integer, as its text.
    pub open spec fn integer(self) -> Reading<Seq<char>> {
        self.text_element(
            Some(INTEGER_TYPE_TAG@),
            |text: Seq<char>| is_decimal(text),
            INTEGER_RULE@,
        )
    }

    /// Reading an object identifier, as its text.
    pub open spec fn object_identifier(self) -> Reading<Seq<char>> {
        self.text_element(
            Some(OBJECT_IDENTIFIER_TYPE_TAG@),
            |text: Seq<char>| text_arcs(text) is Some,
            OBJECT_IDENTIFIER_RULE@,
        )
    }

    /// Reading a value that is written as text under the name `own_name`
    /// where no field names it.
    pub open spec fn string(self, own_name: Seq<char>) -> Reading<Seq<char>> {
        self.text_element(Some(own_name), |text: Seq<char>| true, Seq::empty())
    }

    /// Reading a string.
    pub open spec fn utf8_string(self) -> Reading<Seq<char>> {
        self.text_element(Some(UTF8_STRING_TYPE_TAG@), |text: Seq<char>| true, Seq::empty())
    }

    /// Whether the value of an optional field comes next. As a field of a
    /// constructed type it does where the next element has the name of the
    /// next field; anywhere else, where an element comes next at all.
    pub open spec fn present(self) -> bool {
        match self.lookahead {
            Some(Token::StartElement { name }) => match next_name(self.scopes, None) {
                Some((field, _)) => name@ == field,
                None => !in_fields(self.scopes),
            },
            _ => false,
        }
    }

    /// After the innermost scope was closed.
    pub open spec fn closed(self) -> DecoderView {
        DecoderView {
            scopes: if self.scopes.len() > 0 {
                self.scopes.drop_last()
            } else {
                self.scopes
            },
            ..self
        }
    }
}

/// Whether `r` is what the reading `reading` gives, for a value that `same`
/// relates to the one read, and `post` what the decoder holds after it.
pub open spec fn reads<T, U>(
    reading: Reading<T>,
    post: DecoderView,
    r: Result<U, DecodeError>,
    same: spec_fn(T, U) -> bool,
) -> bool {
    match reading {
        Reading::Failed(fault) => r is Err && fault.is(r->Err_0),
        Reading::Read(value, after) => r is Ok && same(value, r->Ok_0) && post == after,
    }
}

// ---------------------------------------------------------------------------
// The decoder
// ---------------------------------------------------------------------------
/// Whether `first`, the first event of a document, breaks the rule for the
/// XML declaration: it shall be absent, or give the version 1.0 and the
/// encoding UTF-8.
pub open spec fn breaks_prolog_rule(first: Option<Token>) -> bool {
    first matches Some(Token::StartDocument { version, encoding, .. }) && (version@ != "1.0"@
        || encoding@ != "UTF-8"@)
}

/// Checks the first event of a document against the rule for the XML
/// declaration.
pub fn check_prolog(next: &Option<Token>) -> (r: Result<(), DecodeError>)
    ensures
        r is Err <==> breaks_prolog_rule(*next),
        r is Err ==> Fault::SpecViolation(PROLOG_RULE@).is(r->Err_0),
{
    match next {
        Some(Token::StartDocument { version, encoding, .. }) => {
            if !same_text(version.as_str(), "1.0") || !same_text(encoding.as_str(), "UTF-8") {
                return Err(
                    DecodeError::from_xer(
                        XerDecodeErrorKind::SpecViolation {
                            details: PROLOG_RULE.to_owned(),
                        },
                    ),
                );
            }
            Ok(())
        },
        _ => Ok(()),
    }
}

/// Reads a boolean from one of the words `true` and `false`.
pub fn parse_boolean_value(val: &str) -> (r: Result<bool, DecodeError>)
    ensures
        val@ == BOOLEAN_TRUE_TAG@ ==> r is Ok && r->Ok_0,
        val@ == BOOLEAN_FALSE_TAG@ ==> r is Ok && !r->Ok_0,
        val@ != BOOLEAN_TRUE_TAG@ && val@ != BOOLEAN_FALSE_TAG@ ==> r is Err && (
        Fault::TypeMismatch { needed: NEEDED_TRUTH@, found: quoted_text(val@) }).is(r->Err_0),
{
    proof {
        reveal_strlit("true");
        reveal_strlit("false");
        assert(BOOLEAN_TRUE_TAG@ != BOOLEAN_FALSE_TAG@) by {
            assert(BOOLEAN_TRUE_TAG@.len() == 4);
            assert(BOOLEAN_FALSE_TAG@.len() == 5);
        }
    }
    if same_text(val, BOOLEAN_TRUE_TAG) {
        Ok(true)
    } else if same_text(val, BOOLEAN_FALSE_TAG) {
        Ok(false)
    } else {
        Err(
            DecodeError::from_xer(
                XerDecodeErrorKind::XmlTypeMismatch { needed: NEEDED_TRUTH, found: quoted(val) },
            ),
        )
    }
}

/// Reads a bit string from its text: zeros and ones, among which white
/// space means nothing.
pub fn parse_bitstring_value(val: &str) -> (r: Result<BitString, DecodeError>)
    ensures
        is_bits_text(val@) ==> r is Ok && r->Ok_0.bits@ == text_bits(val@),
        !is_bits_text(val@) ==> r is Err && Fault::SpecViolation(BIT_STRING_RULE@).is(r->Err_0),
{
    match read_bits(val) {
        Some(bits) => Ok(BitString { bits }),
        None => Err(
            DecodeError::from_xer(
                XerDecodeErrorKind::SpecViolation {
                    details: BIT_STRING_RULE.to_owned(),
                },
            ),
        ),
    }
}

/// Reads an octet string from its text: pairs of hexadecimal digits, among
/// which white space means nothing.
pub fn parse_octetstring_value(val: &str) -> (r: Result<Vec<u8>, DecodeError>)
    ensures
        is_hex_text(val@) ==> r is Ok && r->Ok_0@ == text_bytes(val@),
        !is_hex_text(val@) ==> r is Err && Fault::SpecViolation(OCTET_STRING_RULE@).is(r->Err_0),
{
    match read_octets(val) {
        Some(bytes) => Ok(bytes),
        None => Err(
            DecodeError::from_xer(
                XerDecodeErrorKind::SpecViolation {
                    details: OCTET_STRING_RULE.to_owned(),
                },
            ),
        ),
    }
}

/// Reads an integer from its text: decimal digits, which a `-` may precede.
pub fn parse_integer_value(val: &str) -> (r: Result<num_bigint::BigInt, DecodeError>)
    ensures
        is_decimal(val@) ==> r is Ok && integer_value(r->Ok_0) == decimal_value(val@),
        !is_decimal(val@) ==> r is Err && Fault::SpecViolation(INTEGER_RULE@).is(r->Err_0),
{
    if is_decimal_text(val) {
        Ok(integer_from_decimal(val))
    } else {
        Err(
            DecodeError::from_xer(
                XerDecodeErrorKind::SpecViolation {
                    details: INTEGER_RULE.to_owned(),
                },
            ),
        )
    }
}

/// Reads an object identifier from its text: numbers with a `.` between
/// one and the next.
pub fn parse_object_identifier_value(val: &str) -> (r: Result<ObjectIdentifier, DecodeError>)
    ensures
        match text_arcs(val@) {
            Some(arcs) => r is Ok && r->Ok_0.arcs@ == arcs,
            None => r is Err && Fault::SpecViolation(OBJECT_IDENTIFIER_RULE@).is(r->Err_0),
        },
{
    match read_arcs(val) {
        Some(arcs) => Ok(ObjectIdentifier { arcs }),
        None => Err(
            DecodeError::from_xer(
                XerDecodeErrorKind::SpecViolation {
                    details: OBJECT_IDENTIFIER_RULE.to_owned(),
                },
            ),
        ),
    }
}

/// Says in words what `token` is, for the error that finds it where another
/// was needed: the kind of the token and, in brackets, the name or the text
/// that it holds.
fn describe(token: &Token) -> (text: String)
    ensures
        text@ == description(*token),
{
    match token {
        Token::StartDocument { .. } => "StartDocument".to_owned(),
        Token::EndDocument => "EndDocument".to_owned(),
        Token::ProcessingInstruction { name, .. } => "ProcessingInstruction(".to_owned().concat(
            name.as_str(),
        ).concat(")"),
        Token::StartElement { name } => "StartElement(".to_owned().concat(name.as_str()).concat(")"),
        Token::EndElement { name } => "EndElement(".to_owned().concat(name.as_str()).concat(")"),
        Token::CData(text) => "CData(".to_owned().concat(text.as_str()).concat(")"),
        Token::Comment(text) => "Comment(".to_owned().concat(text.as_str()).concat(")"),
        Token::Characters(text) => "Characters(".to_owned().concat(text.as_str()).concat(")"),
        Token::Whitespace(text) => "Whitespace(".to_owned().concat(text.as_str()).concat(")"),
    }
}

/// What an error says of a token that it found: the kind of the token and,
/// in brackets, the name or the text that it holds. Of what a processing
/// instruction holds only the name is said, and of the declaration of the
/// document nothing.
pub open spec fn description(token: Token) -> Seq<char> {
    match token {
        Token::StartDocument { .. } => "StartDocument"@,
        Token::EndDocument => "EndDocument"@,
        Token::ProcessingInstruction { name, .. } => "ProcessingInstruction("@ + name@ + ")"@,
        Token::StartElement { name } => "StartElement("@ + name@ + ")"@,
        Token::EndElement { name } => "EndElement("@ + name@ + ")"@,
        Token::CData(text) => "CData("@ + text@ + ")"@,
        Token::Comment(text) => "Comment("@ + text@ + ")"@,
        Token::Characters(text) => "Characters("@ + text@ + ")"@,
        Token::Whitespace(text) => "Whitespace("@ + text@ + ")"@,
    }
}

/// The decoder for XML: the reader of the document, the token that it has
/// read ahead, and the field-tag stack.
pub struct Decoder<'a> {
    reader: XmlReader<'a>,
    next: Option<Token>,
    field_tag_stack: FieldTagStack,
}

impl<'a> View for Decoder<'a> {
    type V = DecoderView;

    closed spec fn view(&self) -> DecoderView {
        DecoderView {
            scopes: self.field_tag_stack@,
            lookahead: self.next,
            stream: reader_stream(self.reader),
        }
    }
}

impl<'a> Decoder<'a> {
    /// A decoder over `input`. The XML declaration is checked, and the
    /// first token after it is read ahead.
    pub fn new(input: &'a [u8]) -> (r: Result<Self, DecodeError>)
        ensures
            match document_events(input@)[0] {
                Ok(first) if breaks_prolog_rule(Some(first)) => r is Err && Fault::SpecViolation(
                    PROLOG_RULE@,
                ).is(r->Err_0),
                _ => reads(
                    DecoderView::initial(document_events(input@)).token(),
                    r->Ok_0@,
                    r,
                    |token: Token, decoder: Self| true,
                ),
            },
    {
        let mut reader = new_reader(input);
        let next = match pull(&mut reader) {
            Ok(token) => Some(token),
            Err(_) => None,
        };
        check_prolog(&next)?;
        let mut decoder = Self { reader, next, field_tag_stack: FieldTagStack::new() };
        assert(decoder@ == DecoderView::initial(document_events(input@)));
        decoder.next()?;
        Ok(decoder)
    }

    /// Hands out the next token and reads one more ahead. Where the reader
    /// fails, its error comes back and the decoder stays as it is; at the end
    /// of the document there is no token to hand out.
    pub fn next(&mut self) -> (r: Result<Token, DecodeError>)
        ensures
            reads(old(self)@.token(), final(self)@, r, |token: Token, given: Token| token == given),
            old(self)@.stream[0] is Err ==> final(self)@ == old(self)@,
            old(self)@.stream[0] is Ok ==> final(self)@ == old(self)@.advanced(),
    {
        let mut next = match pull(&mut self.reader) {
            Ok(Token::EndDocument) => None,
            Ok(token) => Some(token),
            Err(details) => {
                return Err(DecodeError::from_xer(XerDecodeErrorKind::XmlParser { details }));
            },
        };
        std::mem::swap(&mut next, &mut self.next);
        match next {
            Some(token) => Ok(token),
            None => Err(DecodeError::from_xer(XerDecodeErrorKind::EndOfXmlInput)),
        }
    }

    /// The token that is handed out next, if there is one.
    pub fn peek(&self) -> (r: Option<&Token>)
        ensures
            match r {
                Some(token) => self@.lookahead == Some(*token),
                None => self@.lookahead is None,
            },
    {
        self.next.as_ref()
    }

    /// Reads the start of the element `name`.
    fn expect_start(&mut self, name: &str) -> (r: Result<(), DecodeError>)
        ensures
            reads(old(self)@.start(name@), final(self)@, r, |a: (), b: ()| true),
    {
        match self.next()? {
            Token::StartElement { name: found } => {
                if same_text(found.as_str(), name) {
                    Ok(())
                } else {
                    Err(
                        DecodeError::from_xer(
                            XerDecodeErrorKind::XmlTag { needed: name.to_owned(), found },
                        ),
                    )
                }
            },
            other => Err(
                DecodeError::from_xer(
                    XerDecodeErrorKind::XmlTypeMismatch {
                        needed: NEEDED_START,
                        found: describe(&other),
                    },
                ),
            ),
        }
    }

    /// Reads the end of the element `name`.
    fn expect_end(&mut self, name: &str) -> (r: Result<(), DecodeError>)
        ensures
            reads(old(self)@.end(name@), final(self)@, r, |a: (), b: ()| true),
    {
        match self.next()? {
            Token::EndElement { name: found } => {
                if same_text(found.as_str(), name) {
                    Ok(())
                } else {
                    Err(
                        DecodeError::from_xer(
                            XerDecodeErrorKind::XmlTag { needed: name.to_owned(), found },
                        ),
                    )
                }
            },
            other => Err(
                DecodeError::from_xer(
                    XerDecodeErrorKind::XmlTypeMismatch {
                        needed: NEEDED_END,
                        found: describe(&other),
                    },
                ),
            ),
        }
    }

    /// Takes the name of the element for the next value and reads its start.
    fn enter(&mut self, fallback: Option<&'static str>) -> (r: Result<&'static str, DecodeError>)
        ensures
            reads(
                old(self)@.entered(crate::types::name_view(fallback)),
                final(self)@,
                r,
                |name: Seq<char>, given: &'static str| given@ == name,
            ),
    {
        match self.field_tag_stack.take_name(fallback) {
            None => Err(DecodeError::from_xer(XerDecodeErrorKind::FieldName)),
            Some(name) => {
                self.expect_start(name)?;
                Ok(name)
            },
        }
    }

    /// Reads the text of an element.
    fn take_text(&mut self) -> (r: Result<String, DecodeError>)
        ensures
            reads(
                old(self)@.text(),
                final(self)@,
                r,
                |text: Seq<char>, given: String| given@ == text,
            ),
    {
        match self.peek() {
            None => Err(DecodeError::from_xer(XerDecodeErrorKind::EndOfXmlInput)),
            Some(Token::Characters(_)) => {
                match self.next()? {
                    Token::Characters(text) => Ok(text),
                    _ => Ok(String::new()),
                }
            },
            Some(Token::Whitespace(_)) => {
                match self.next()? {
                    Token::Whitespace(text) => Ok(text),
                    _ => Ok(String::new()),
                }
            },
            Some(Token::EndElement { .. }) => Ok(String::new()),
            Some(other) => Err(
                DecodeError::from_xer(
                    XerDecodeErrorKind::XmlTypeMismatch {
                        needed: NEEDED_TEXT,
                        found: describe(other),
                    },
                ),
            ),
        }
    }

    /// Reads what a boolean element holds.
    fn take_truth(&mut self) -> (r: Result<bool, DecodeError>)
        ensures
            reads(old(self)@.truth(), final(self)@, r, |value: bool, given: bool| given == value),
    {
        proof {
            reveal_strlit("true");
            reveal_strlit("false");
            assert(BOOLEAN_TRUE_TAG@.len() == 4);
            assert(BOOLEAN_FALSE_TAG@.len() == 5);
        }
        match self.peek() {
            None => Err(DecodeError::from_xer(XerDecodeErrorKind::EndOfXmlInput)),
            Some(Token::StartElement { name }) => {
                if same_text(name.as_str(), BOOLEAN_TRUE_TAG) {
                    self.expect_start(BOOLEAN_TRUE_TAG)?;
                    self.expect_end(BOOLEAN_TRUE_TAG)?;
                    Ok(true)
                } else if same_text(name.as_str(), BOOLEAN_FALSE_TAG) {
                    self.expect_start(BOOLEAN_FALSE_TAG)?;
                    self.expect_end(BOOLEAN_FALSE_TAG)?;
                    Ok(false)
                } else {
                    Err(
                        DecodeError::from_xer(
                            XerDecodeErrorKind::XmlTypeMismatch {
                                needed: NEEDED_TRUTH,
                                found: name.clone(),
                            },
                        ),
                    )
                }
            },
            Some(Token::Characters(_)) => {
                match self.next()? {
                    Token::Characters(text) => parse_boolean_value(text.as_str()),
                    _ => Ok(false),
                }
            },
            Some(other) => Err(
                DecodeError::from_xer(
                    XerDecodeErrorKind::XmlTypeMismatch {
                        needed: NEEDED_TRUTH,
                        found: describe(other),
                    },
                ),
            ),
        }
    }

    /// Reads a value that is written as text, as the bytes of the text.
    fn decode_bytes(&mut self, own_name: &'static str) -> (r: Result<Vec<u8>, DecodeError>)
        ensures
            reads(
                old(self)@.string(own_name@),
                final(self)@,
                r,
                |text: Seq<char>, bytes: Vec<u8>| bytes@ == encode_utf8(text),
            ),
    {
        let name = self.enter(Some(own_name))?;
        let text = self.take_text()?;
        self.expect_end(name)?;
        Ok(text.as_str().as_bytes_vec())
    }

    /// Tells whether the value of an optional field comes next.
    fn is_present(&self) -> (b: bool)
        ensures
            b == self@.present(),
    {
        match self.peek() {
            Some(Token::StartElement { name }) => match self.field_tag_stack.peek_name() {
                Some(field) => same_text(name.as_str(), field),
                None => !self.field_tag_stack.is_in_fields(),
            },
            _ => false,
        }
    }
}

impl<'a> Outcome for Decoder<'a> {
    type Error = DecodeError;
}

impl<'a> crate::de::Decoder for Decoder<'a> {
    fn codec(&self) -> (codec: Codec)
        ensures
            codec == Codec::Xer,
    {
        Codec::Xer
    }

    /// A bit string is an element that holds zeros and ones, or nothing.
    fn decode_bit_string(&mut self, tag: Tag, constraints: Constraints) -> (r: Result<
        BitString,
        DecodeError,
    >)
        ensures
            reads(
                old(self)@.bit_string(),
                final(self)@,
                r,
                |text: Seq<char>, value: BitString| value.bits@ == text_bits(text),
            ),
    {
        let name = self.enter(Some(BIT_STRING_TYPE_TAG))?;
        let text = self.take_text()?;
        let value = parse_bitstring_value(text.as_str())?;
        self.expect_end(name)?;
        Ok(value)
    }

    /// A boolean is an element that holds an empty element named `true` or
    /// `false`, or one of these words.
    fn decode_bool(&mut self, tag: Tag) -> (r: Result<bool, DecodeError>)
        ensures
            reads(old(self)@.boolean(), final(self)@, r, |value: bool, given: bool| given == value),
    {
        let name = self.enter(Some(BOOLEAN_TYPE_TAG))?;
        let value = self.take_truth()?;
        self.expect_end(name)?;
        Ok(value)
    }

    /// An integer is an element that holds decimal digits, which a `-` may
    /// precede.
    fn decode_integer(&mut self, tag: Tag, constraints: Constraints) -> (r: Result<
        num_bigint::BigInt,
        DecodeError,
    >)
        ensures
            reads(
                old(self)@.integer(),
                final(self)@,
                r,
                |text: Seq<char>, value: num_bigint::BigInt|
                    integer_value(value) == decimal_value(text),
            ),
    {
        let name = self.enter(Some(INTEGER_TYPE_TAG))?;
        let text = self.take_text()?;
        let value = parse_integer_value(text.as_str())?;
        self.expect_end(name)?;
        Ok(value)
    }

    /// The null value is an element without content.
    fn decode_null(&mut self, tag: Tag) -> (r: Result<(), DecodeError>)
        ensures
            reads(old(self)@.null(), final(self)@, r, |a: (), b: ()| true),
    {
        let name = self.enter(Some(NULL_TYPE_TAG))?;
        self.expect_end(name)
    }

    /// An octet string is an element that holds pairs of hexadecimal digits,
    /// or nothing.
    fn decode_octet_string(&mut self, tag: Tag, constraints: Constraints) -> (r: Result<
        Vec<u8>,
        DecodeError,
    >)
        ensures
            reads(
                old(self)@.octet_string(),
                final(self)@,
                r,
                |text: Seq<char>, value: Vec<u8>| value@ == text_bytes(text),
            ),
    {
        let name = self.enter(Some(OCTET_STRING_TYPE_TAG))?;
        let text = self.take_text()?;
        let value = parse_octetstring_value(text.as_str())?;
        self.expect_end(name)?;
        Ok(value)
    }

    /// A string is an element that holds its characters, or nothing.
    fn decode_utf8_string(&mut self, tag: Tag, constraints: Constraints) -> (r: Result<
        String,
        DecodeError,
    >)
        ensures
            reads(
                old(self)@.utf8_string(),
                final(self)@,
                r,
                |text: Seq<char>, value: String| value@ == text,
            ),
    {
        let name = self.enter(Some(UTF8_STRING_TYPE_TAG))?;
        let text = self.take_text()?;
        self.expect_end(name)?;
        Ok(text)
    }

    /// An object identifier is an element that holds numbers with a `.`
    /// between one and the next, or nothing.
    fn decode_object_identifier(&mut self, tag: Tag) -> (r: Result<ObjectIdentifier, DecodeError>)
        ensures
            reads(
                old(self)@.object_identifier(),
                final(self)@,
                r,
                |text: Seq<char>, value: ObjectIdentifier| Some(value.arcs@) == text_arcs(text),
            ),
    {
        let name = self.enter(Some(OBJECT_IDENTIFIER_TYPE_TAG))?;
        let text = self.take_text()?;
        let value = parse_object_identifier_value(text.as_str())?;
        self.expect_end(name)?;
        Ok(value)
    }

    fn decode_general_string(&mut self, tag: Tag, constraints: Constraints) -> (r: Result<
        GeneralString,
        DecodeError,
    >)
        ensures
            reads(
                old(self)@.string(GENERAL_STRING_TYPE_TAG@),
                final(self)@,
                r,
                |text: Seq<char>, value: GeneralString| value.bytes@ == encode_utf8(text),
            ),
    {
        let bytes = self.decode_bytes(GENERAL_STRING_TYPE_TAG)?;
        Ok(GeneralString { bytes })
    }

    fn decode_visible_string(&mut self, tag: Tag, constraints: Constraints) -> (r: Result<
        VisibleString,
        DecodeError,
    >)
        ensures
            reads(
                old(self)@.string(VISIBLE_STRING_TYPE_TAG@),
                final(self)@,
                r,
                |text: Seq<char>, value: VisibleString| value.bytes@ == encode_utf8(text),
            ),
    {
        let bytes = self.decode_bytes(VISIBLE_STRING_TYPE_TAG)?;
        Ok(VisibleString { bytes })
    }

    fn decode_ia5_string(&mut self, tag: Tag, constraints: Constraints) -> (r: Result<
        Ia5String,
        DecodeError,
    >)
        ensures
            reads(
                old(self)@.string(IA5_STRING_TYPE_TAG@),
                final(self)@,
                r,
                |text: Seq<char>, value: Ia5String| value.bytes@ == encode_utf8(text),
            ),
    {
        let bytes = self.decode_bytes(IA5_STRING_TYPE_TAG)?;
        Ok(Ia5String { bytes })
    }

    fn decode_printable_string(&mut self, tag: Tag, constraints: Constraints) -> (r: Result<
        PrintableString,
        DecodeError,
    >)
        ensures
            reads(
                old(self)@.string(PRINTABLE_STRING_TYPE_TAG@),
                final(self)@,
                r,
                |text: Seq<char>, value: PrintableString| value.bytes@ == encode_utf8(text),
            ),
    {
        let bytes = self.decode_bytes(PRINTABLE_STRING_TYPE_TAG)?;
        Ok(PrintableString { bytes })
    }

    fn decode_numeric_string(&mut self, tag: Tag, constraints: Constraints) -> (r: Result<
        NumericString,
        DecodeError,
    >)
        ensures
            reads(
                old(self)@.string(NUMERIC_STRING_TYPE_TAG@),
                final(self)@,
                r,
                |text: Seq<char>, value: NumericString| value.bytes@ == encode_utf8(text),
            ),
    {
        let bytes = self.decode_bytes(NUMERIC_STRING_TYPE_TAG)?;
        Ok(NumericString { bytes })
    }

    fn decode_teletex_string(&mut self, tag: Tag, constraints: Constraints) -> (r: Result<
        TeletexString,
        DecodeError,
    >)
        ensures
            reads(
                old(self)@.string(TELETEX_STRING_TYPE_TAG@),
                final(self)@,
                r,
                |text: Seq<char>, value: TeletexString| value.bytes@ == encode_utf8(text),
            ),
    {
        let bytes = self.decode_bytes(TELETEX_STRING_TYPE_TAG)?;
        Ok(TeletexString { bytes })
    }

    fn decode_bmp_string(&mut self, tag: Tag, constraints: Constraints) -> (r: Result<
        BmpString,
        DecodeError,
    >)
        ensures
            reads(
                old(self)@.string(BMP_STRING_TYPE_TAG@),
                final(self)@,
                r,
                |text: Seq<char>, value: BmpString| value.bytes@ == encode_utf8(text),
            ),
    {
        let bytes = self.decode_bytes(BMP_STRING_TYPE_TAG)?;
        Ok(BmpString { bytes })
    }

    fn decode_utc_time(&mut self, tag: Tag) -> (r: Result<UtcTime, DecodeError>)
        ensures
            reads(
                old(self)@.string(UTC_TIME_TYPE_TAG@),
                final(self)@,
                r,
                |text: Seq<char>, value: UtcTime| value.canonical@ == encode_utf8(text),
            ),
    {
        let canonical = self.decode_bytes(UTC_TIME_TYPE_TAG)?;
        Ok(UtcTime { canonical })
    }

    fn decode_generalized_time(&mut self, tag: Tag) -> (r: Result<GeneralizedTime, DecodeError>)
        ensures
            reads(
                old(self)@.string(GENERALIZED_TIME_TYPE_TAG@),
                final(self)@,
                r,
                |text: Seq<char>, value: GeneralizedTime| value.canonical@ == encode_utf8(text),
            ),
    {
        let canonical = self.decode_bytes(GENERALIZED_TIME_TYPE_TAG)?;
        Ok(GeneralizedTime { canonical })
    }

    /// A sequence is an element that holds the elements of its fields, each
    /// named after the field. The field names of `T` are put on the stack
    /// before `decode_fn` runs, and each value that it reads takes the next
    /// one.
    fn decode_sequence<T: Constructed, F: FnOnce(&mut Self) -> Result<T, DecodeError>>(
        &mut self,
        tag: Tag,
        decode_fn: F,
    ) -> (r: Result<T, DecodeError>)
        ensures
            match old(self)@.entered(Some(SEQUENCE_TYPE_TAG@)) {
                Reading::Failed(fault) => r is Err && fault.is(r->Err_0),
                Reading::Read(name, inside) => exists|
                    fields: Vec<Field>,
                    d: &mut Self,
                    inner: Result<T, DecodeError>,
                |
                    #![trigger call_ensures(T::fields, (), fields), call_ensures(decode_fn, (d,), inner)]
                    {
                        &&& call_ensures(T::fields, (), fields)
                        &&& d@ == (DecoderView {
                            scopes: inside.scopes.push(Scope::Fields(field_names(fields@))),
                            ..inside
                        })
                        &&& call_ensures(decode_fn, (d,), inner)
                        &&& match inner {
                            Err(error) => r is Err && r->Err_0 == error,
                            Ok(value) => reads(
                                final(d)@.closed().end(name),
                                final(self)@,
                                r,
                                |a: (), given: T| given == value,
                            ),
                        }
                    },
            },
    {
        let names = names_of::<T>();
        let name = self.enter(Some(SEQUENCE_TYPE_TAG))?;
        self.field_tag_stack.open_fields(names);
        match decode_fn(self) {
            Err(error) => Err(error),
            Ok(value) => {
                self.field_tag_stack.close_scope();
                self.expect_end(name)?;
                Ok(value)
            },
        }
    }

    open spec fn field_present(pre: Self, tag: Tag) -> bool {
        pre@.present()
    }

    open spec fn field_absent(pre: Self, tag: Tag, post: Self) -> bool {
        post@ == (DecoderView { scopes: skip_name(pre@.scopes), ..pre@ })
    }

    fn decode_optional_with_tag_and_constraints<T: Decode<Self>>(
        &mut self,
        tag: Tag,
        constraints: Constraints,
    ) -> (r: Result<Option<T>, DecodeError>) {
        assert(Self::field_present(*old(self), tag) == old(self)@.present());
        if self.is_present() {
            let inner = T::decode_with_tag_and_constraints(self, tag, constraints);
            match inner {
                Ok(value) => Ok(Some(value)),
                Err(error) => Err(error),
            }
        } else {
            self.field_tag_stack.drop_name();
            assert(self@ == (DecoderView { scopes: skip_name(old(self)@.scopes), ..old(self)@ }));
            assert(Self::field_absent(*old(self), tag, *self));
            Ok(None)
        }
    }

    fn decode_optional<T: Decode<Self>>(&mut self) -> (r: Result<Option<T>, DecodeError>) {
        let tag = T::tag();
        let constraints = T::constraints();
        self.decode_optional_with_tag_and_constraints(tag, constraints)
    }

    fn decode_optional_with_tag<T: Decode<Self>>(&mut self, tag: Tag) -> (r: Result<
        Option<T>,
        DecodeError,
    >) {
        let constraints = T::constraints();
        self.decode_optional_with_tag_and_constraints(tag, constraints)
    }

    fn decode_optional_with_constraints<T: Decode<Self>>(
        &mut self,
        constraints: Constraints,
    ) -> (r: Result<Option<T>, DecodeError>) {
        let tag = T::tag();
        self.decode_optional_with_tag_and_constraints(tag, constraints)
    }
}

} // verus!
