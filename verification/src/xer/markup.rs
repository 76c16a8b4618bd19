//! The XML documents that the codec writes and reads, as sequences of
//! events, and the calls into the XML writer and the XML readers.
//!
//! Nothing in this file is proved: each contract states what the XML
//! libraries do, and the rest of the codec is verified against them.

use std::borrow::Cow;
use vstd::prelude::*;
use xml_no_std::name::Name;
use xml_no_std::namespace::Namespace;

verus! {

// ---------------------------------------------------------------------------
// Writing
// ---------------------------------------------------------------------------
/// The writer of documents: `xml_no_std::writer::EventWriter`, of which
/// nothing is seen but what the names below say.
#[verifier::external_type_specification]
#[verifier::external_body]
pub struct ExEventWriter(xml_no_std::writer::EventWriter);

/// An event as the reader of fragments gives it:
/// `xml_no_std::reader::XmlEvent`, of which nothing is seen but its kind.
#[verifier::external_type_specification]
#[verifier::external_body]
pub struct ExParsedEvent(xml_no_std::reader::XmlEvent);

/// The name of an element as the writer keeps it.
pub struct ElementName {
    pub local: Seq<char>,
    pub namespace: Option<Seq<char>>,
    pub prefix: Option<Seq<char>>,
}

/// The name of an element that has a local name only.
pub open spec fn local_name(name: Seq<char>) -> ElementName {
    ElementName { local: name, namespace: None, prefix: None }
}

/// One event of an XML document, as a specification value.
pub enum Markup {
    /// The start of an element with a local name, no attribute and no
    /// namespace.
    Start(Seq<char>),
    /// The end of the element with this local name.
    End(Seq<char>),
    /// Character data; the writer escapes it.
    Text(Seq<char>),
    /// An event that a reader gave, written again as it was read.
    Parsed(xml_no_std::reader::XmlEvent),
}

/// One event to write.
pub enum Piece<'a> {
    StartElement(&'a str),
    EndElement(&'a str),
    Characters(&'a str),
    Parsed(&'a xml_no_std::reader::XmlEvent),
}

impl<'a> Piece<'a> {
    /// The event as a specification value.
    pub open spec fn markup(self) -> Markup {
        match self {
            Piece::StartElement(name) => Markup::Start(name@),
            Piece::EndElement(name) => Markup::End(name@),
            Piece::Characters(text) => Markup::Text(text@),
            Piece::Parsed(event) => Markup::Parsed(*event),
        }
    }
}

/// The kinds of events that a reader gives.
#[derive(Clone, Copy, Debug, PartialEq, Eq, Structural)]
pub enum EventKind {
    StartDocument,
    EndDocument,
    ProcessingInstruction,
    StartElement,
    EndElement,
    CData,
    Comment,
    Characters,
    Whitespace,
}

impl EventKind {
    /// Whether an event of this kind is written again when a fragment is
    /// passed through: all but the bounds of the document and white space.
    pub open spec fn is_content(self) -> bool {
        self != EventKind::StartDocument && self != EventKind::EndDocument && self
            != EventKind::Whitespace
    }
}

/// The events that were written to `writer`, in order.
pub uninterp spec fn writer_markup(writer: xml_no_std::writer::EventWriter) -> Seq<Markup>;

/// The names of the elements that were started on `writer` and not ended,
/// the innermost last.
pub uninterp spec fn writer_open(writer: xml_no_std::writer::EventWriter) -> Seq<ElementName>;

/// Whether `writer` was made by `new_writer` and has refused no event since.
pub uninterp spec fn writer_intact(writer: xml_no_std::writer::EventWriter) -> bool;

/// The text of the document that a writer made by `new_writer` holds after
/// the events `markup`, as bytes.
pub uninterp spec fn document_text(markup: Seq<Markup>) -> Seq<u8>;

/// The events that the fragment reader gives for `bytes`, up to and with the
/// end of the document, or up to and with the first error, as its message.
pub uninterp spec fn fragment_events(bytes: Seq<u8>) -> Seq<
    Result<xml_no_std::reader::XmlEvent, String>,
>;

/// The kind of a parsed event.
pub uninterp spec fn parsed_kind(event: xml_no_std::reader::XmlEvent) -> EventKind;

/// The name of the element that a parsed start or end is the start or end
/// of: its local name, namespace and prefix.
pub uninterp spec fn parsed_name(event: xml_no_std::reader::XmlEvent) -> ElementName;

/// What an event does to the open elements of a writer.
pub enum Step {
    /// It starts the element with this name.
    Open(ElementName),
    /// It ends the element with this name.
    Close(ElementName),
    /// It neither starts nor ends an element.
    Stay,
}

/// What a parsed event of the kind `kind`, of the element `name` if it is a
/// start or an end, does to the open elements.
pub open spec fn parsed_step(kind: EventKind, name: ElementName) -> Step {
    if kind == EventKind::StartElement {
        Step::Open(name)
    } else if kind == EventKind::EndElement {
        Step::Close(name)
    } else {
        Step::Stay
    }
}

/// What `event` does to the open elements.
pub open spec fn step_of(event: Markup) -> Step {
    match event {
        Markup::Start(name) => Step::Open(local_name(name)),
        Markup::End(name) => Step::Close(local_name(name)),
        Markup::Text(_) => Step::Stay,
        Markup::Parsed(parsed) => parsed_step(parsed_kind(parsed), parsed_name(parsed)),
    }
}

/// Whether a writer with the elements `open` takes an event that does
/// `step`. It takes every event but the end of an element that is not the
/// innermost open one.
pub open spec fn is_taken(open: Seq<ElementName>, step: Step) -> bool {
    step matches Step::Close(name) ==> open.len() > 0 && open.last() == name
}

/// The open elements of a writer that had the elements `open` and took an
/// event that does `step`.
pub open spec fn open_after(open: Seq<ElementName>, step: Step) -> Seq<ElementName> {
    match step {
        Step::Open(name) => open.push(name),
        Step::Close(_) => open.drop_last(),
        Step::Stay => open,
    }
}

/// Whether the events of a fragment stop at `event`: at the end of the
/// document, or at an error.
pub open spec fn ends_fragment(event: Result<xml_no_std::reader::XmlEvent, String>) -> bool {
    match event {
        Ok(parsed) => parsed_kind(parsed) == EventKind::EndDocument,
        Err(_) => true,
    }
}

/// The elements that are open after the first `n` of `events`, the innermost
/// last; `None` where one of these events is the end of an element that is
/// not the innermost open one.
pub open spec fn nesting(
    events: Seq<Result<xml_no_std::reader::XmlEvent, String>>,
    n: nat,
) -> Option<Seq<ElementName>>
    decreases n,
{
    if n == 0 || n > events.len() {
        Some(Seq::empty())
    } else {
        match nesting(events, (n - 1) as nat) {
            None => None,
            Some(open) => match events[n - 1] {
                Err(_) => Some(open),
                Ok(parsed) => if parsed_kind(parsed) == EventKind::StartElement {
                    Some(open.push(parsed_name(parsed)))
                } else if parsed_kind(parsed) == EventKind::EndElement {
                    if open.len() > 0 && open.last() == parsed_name(parsed) {
                        Some(open.drop_last())
                    } else {
                        None
                    }
                } else {
                    Some(open)
                },
            },
        }
    }
}

/// What holds of the events that a reader gives for any bytes: there is at
/// least one; the last one, and no other, is the end of the document or an
/// error; each end of an element closes the innermost element that is open;
/// and at the end of the document none is open.
pub open spec fn is_fragment(events: Seq<Result<xml_no_std::reader::XmlEvent, String>>) -> bool {
    &&& events.len() > 0
    &&& forall|i: int| 0 <= i < events.len() - 1 ==> !ends_fragment(#[trigger] events[i])
    &&& ends_fragment(events.last())
    &&& nesting(events, events.len()) is Some
    &&& events.last() is Ok ==> nesting(events, events.len()) == Some(Seq::<ElementName>::empty())
}

/// `EmitterConfig::new`, its setters and `create_writer`: a writer that has
/// written nothing, writes no document declaration of its own, writes an
/// element without content as one tag and puts no space before that tag's
/// end. It keeps the names of the open elements, as writers do unless told
/// otherwise.
#[verifier::external_body]
pub(crate) fn new_writer() -> (writer: xml_no_std::writer::EventWriter)
    ensures
        writer_intact(writer),
        writer_markup(writer) == Seq::<Markup>::empty(),
        writer_open(writer) == Seq::<ElementName>::empty(),
{
    xml_no_std::writer::EmitterConfig::new()
        .write_document_declaration(false)
        .pad_self_closing(false)
        .create_writer()
}

/// `EventWriter::write`. An intact writer takes every event but the end of
/// an element that is not the innermost open one, by its whole name. What
/// it takes is added to the events, and the open elements follow the starts
/// and ends. A writer that refused an event is not intact any more; the
/// error comes back as its message.
#[verifier::external_body]
pub(crate) fn emit(writer: &mut xml_no_std::writer::EventWriter, piece: Piece<'_>) -> (r: Result<
    (),
    String,
>)
    requires
        piece matches Piece::Parsed(event) ==> parsed_kind(*event).is_content(),
    ensures
        ({
            let step = match piece {
                Piece::StartElement(name) => Step::Open(local_name(name@)),
                Piece::EndElement(name) => Step::Close(local_name(name@)),
                Piece::Characters(_) => Step::Stay,
                Piece::Parsed(event) => parsed_step(parsed_kind(*event), parsed_name(*event)),
            };
            writer_intact(*old(writer)) ==> {
                &&& r is Ok <==> is_taken(writer_open(*old(writer)), step)
                &&& r is Ok ==> writer_intact(*final(writer))
                &&& r is Ok ==> writer_markup(*final(writer)) == writer_markup(
                    *old(writer),
                ).push(piece.markup())
                &&& r is Ok ==> writer_open(*final(writer)) == open_after(
                    writer_open(*old(writer)),
                    step,
                )
            }
        }),
{
    let written = match piece {
        Piece::StartElement(name) => writer.write(xml_no_std::writer::XmlEvent::StartElement {
            name: Name::local(name),
            attributes: Cow::Borrowed(&[]),
            namespace: Cow::Owned(Namespace::empty()),
        }),
        Piece::EndElement(name) => writer.write(
            xml_no_std::writer::XmlEvent::EndElement { name: Some(Name::local(name)) },
        ),
        Piece::Characters(text) => writer.write(xml_no_std::writer::XmlEvent::Characters(text)),
        Piece::Parsed(event) => writer.write(event.as_writer_event().unwrap()),
    };
    written.map_err(|error| error.to_string())
}

/// `EventWriter::into_inner`: the document that an intact writer holds is the
/// text of the events written to it.
#[verifier::external_body]
pub(crate) fn into_document(writer: xml_no_std::writer::EventWriter) -> (bytes: Vec<u8>)
    ensures
        writer_intact(writer) ==> bytes@ == document_text(writer_markup(writer)),
{
    writer.into_inner().into_bytes()
}

/// `ParserConfig::create_reader` and the iterator of the reader it makes:
/// the events of `contents`, an error as its message. The iterator stops
/// after the end of the document or the first error, and the reader gives
/// the end of an element only where it closes the innermost open one, and
/// the end of the document only where none is open.
#[verifier::external_body]
pub(crate) fn parse_fragment(contents: &[u8]) -> (events: Vec<
    Result<xml_no_std::reader::XmlEvent, String>,
>)
    ensures
        events@ == fragment_events(contents@),
        is_fragment(events@),
{
    xml_no_std::reader::ParserConfig::default()
        .create_reader(contents.iter())
        .into_iter()
        .map(|event| event.map_err(|error| error.to_string()))
        .collect()
}

/// Tells the variants of a parsed event apart.
#[verifier::external_body]
pub(crate) fn event_kind(event: &xml_no_std::reader::XmlEvent) -> (kind: EventKind)
    ensures
        kind == parsed_kind(*event),
{
    match event {
        xml_no_std::reader::XmlEvent::StartDocument { .. } => EventKind::StartDocument,
        xml_no_std::reader::XmlEvent::EndDocument => EventKind::EndDocument,
        xml_no_std::reader::XmlEvent::ProcessingInstruction { .. } => EventKind::ProcessingInstruction,
        xml_no_std::reader::XmlEvent::StartElement { .. } => EventKind::StartElement,
        xml_no_std::reader::XmlEvent::EndElement { .. } => EventKind::EndElement,
        xml_no_std::reader::XmlEvent::CData(_) => EventKind::CData,
        xml_no_std::reader::XmlEvent::Comment(_) => EventKind::Comment,
        xml_no_std::reader::XmlEvent::Characters(_) => EventKind::Characters,
        xml_no_std::reader::XmlEvent::Whitespace(_) => EventKind::Whitespace,
    }
}

// ---------------------------------------------------------------------------
// Reading
// ---------------------------------------------------------------------------
/// One event of an XML document that is read: what the decoder looks at,
/// without attributes and namespaces.
#[derive(Clone, Debug, PartialEq, Eq)]
pub enum Token {
    /// The document declaration, or what stands for it where there is none.
    StartDocument { version: String, encoding: String, standalone: Option<bool> },
    /// The end of the document.
    EndDocument,
    ProcessingInstruction { name: String, data: Option<String> },
    /// The start of the element with this local name.
    StartElement { name: String },
    /// The end of the element with this local name.
    EndElement { name: String },
    CData(String),
    Comment(String),
    /// Character data that is not only white space.
    Characters(String),
    /// Character data that is only white space.
    Whitespace(String),
}

/// An event as the reader of documents gives it: `xml::reader::XmlEvent`,
/// which `own_event` turns into a `Token`.
#[verifier::external_type_specification]
#[verifier::external_body]
pub struct ExDocumentEvent(xml::reader::XmlEvent);

/// The reader of a document. Its type cannot be declared, being bounded by a
/// trait of the input, so it is kept out of sight behind this struct.
#[verifier::external_body]
pub struct XmlReader<'a> {
    inner: xml::reader::EventReader<std::io::BufReader<&'a [u8]>>,
}

/// The events that the document reader gives for `bytes`, the last one being
/// the end of the document or the error at which it stops.
pub uninterp spec fn document_events(bytes: Seq<u8>) -> Seq<Result<Token, String>>;

/// The events that `reader` has yet to give, the last one being the end of
/// the document or the error at which it stops.
pub uninterp spec fn reader_stream(reader: XmlReader) -> Seq<Result<Token, String>>;

/// `ParserConfig::create_reader`: a reader that has all the events of
/// `input` yet to give.
#[verifier::external_body]
pub(crate) fn new_reader<'a>(input: &'a [u8]) -> (reader: XmlReader<'a>)
    ensures
        reader_stream(reader) == document_events(input@),
{
    XmlReader {
        inner: xml::reader::ParserConfig::default().create_reader(std::io::BufReader::new(input)),
    }
}

/// Whether the events of a document stop at `event`: at the end of the
/// document, or at an error.
pub open spec fn is_last(event: Result<Token, String>) -> bool {
    match event {
        Ok(token) => token is EndDocument,
        Err(_) => true,
    }
}

/// `EventReader::next`: the next event, which there always is. After the end
/// of the document, or an error, the same is given again; after any other
/// event more are to come.
#[verifier::external_body]
pub(crate) fn pull(reader: &mut XmlReader<'_>) -> (event: Result<Token, String>)
    ensures
        reader_stream(*old(reader)).len() > 0,
        event == reader_stream(*old(reader))[0],
        is_last(event) ==> reader_stream(*final(reader)) == reader_stream(*old(reader)),
        !is_last(event) ==> reader_stream(*old(reader)).len() > 1 && reader_stream(*final(reader))
            == reader_stream(*old(reader)).skip(1),
{
    reader.inner.next().map(own_event).map_err(|error| format!("{error:?}"))
}

/// Moves the fields of a reader's event into the library's own.
#[verifier::external_body]
fn own_event(event: xml::reader::XmlEvent) -> Token {
    match event {
        xml::reader::XmlEvent::StartDocument { version, encoding, standalone } =>
            Token::StartDocument { version: version.to_string(), encoding, standalone },
        xml::reader::XmlEvent::EndDocument => Token::EndDocument,
        xml::reader::XmlEvent::ProcessingInstruction { name, data } =>
            Token::ProcessingInstruction { name, data },
        xml::reader::XmlEvent::StartElement { name, .. } => Token::StartElement { name: name.local_name },
        xml::reader::XmlEvent::EndElement { name } => Token::EndElement { name: name.local_name },
        xml::reader::XmlEvent::CData(text) => Token::CData(text),
        xml::reader::XmlEvent::Comment(text) => Token::Comment(text),
        xml::reader::XmlEvent::Characters(text) => Token::Characters(text),
        xml::reader::XmlEvent::Whitespace(text) => Token::Whitespace(text),
    }
}

} // verus!
