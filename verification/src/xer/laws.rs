//! What holds between writing and reading. The encoder writes events and the
//! decoder reads tokens; the XML writer and the XML reader stand between
//! them. The laws here say that a decoder which is given, as tokens, the
//! events that the encoder wrote for a value reads that value back.

use crate::xer::de::{
    DecoderView, Reading, BIT_STRING_RULE, INTEGER_RULE, OBJECT_IDENTIFIER_RULE,
    OCTET_STRING_RULE,
};
use crate::xer::enc::{bits_markup, bool_markup, element, octets_markup, text_markup};
use crate::xer::markup::{Markup, Token};
use crate::xer::names::{given_name, next_name};
use crate::xer::text::{
    arcs_text, lemma_arcs_round_trip, text_arcs, bits_text, decimal_text, decimal_value, hex_text, is_bits_text, is_decimal,
    is_hex_text, lemma_bits_round_trip, lemma_decimal_round_trip, lemma_hex_round_trip,
    text_bits, text_bytes,
};
use crate::xer::{
    BIT_STRING_TYPE_TAG, BOOLEAN_FALSE_TAG, BOOLEAN_TRUE_TAG, BOOLEAN_TYPE_TAG, INTEGER_TYPE_TAG,
    NULL_TYPE_TAG, OBJECT_IDENTIFIER_TYPE_TAG, OCTET_STRING_TYPE_TAG, UTF8_STRING_TYPE_TAG,
};
use vstd::prelude::*;
use vstd::utf8::{decode_utf8, decode_utf8_encode_utf8, encode_utf8, valid_utf8};

verus! {

/// Whether `token` is what a reader gives for the event `event` of a
/// document: the same kind of event with the same name or text.
pub open spec fn token_of(token: Token, event: Markup) -> bool {
    match event {
        Markup::Start(name) => token matches Token::StartElement { name: found } && found@ == name,
        Markup::End(name) => token matches Token::EndElement { name: found } && found@ == name,
        Markup::Text(text) => (token matches Token::Characters(found) && found@ == text) || (
        token matches Token::Whitespace(found) && found@ == text),
        Markup::Parsed(_) => false,
    }
}

/// Whether an event leaves no token behind: character data without any
/// character.
pub open spec fn is_silent(event: Markup) -> bool {
    event matches Markup::Text(text) && text.len() == 0
}

impl DecoderView {
    /// Whether the tokens that the decoder hands out next are those of the
    /// events `markup`, each of them followed by a further event of the
    /// reader.
    pub open spec fn spells(self, markup: Seq<Markup>) -> bool
        decreases markup.len(),
    {
        if markup.len() == 0 {
            true
        } else if is_silent(markup[0]) {
            self.spells(markup.skip(1))
        } else {
            &&& self.lookahead matches Some(token)
            &&& token_of(token, markup[0])
            &&& self.stream.len() > 0
            &&& self.stream[0] is Ok
            &&& self.advanced().spells(markup.skip(1))
        }
    }
}

/// A decoder that stands before the element of a text reads the text.
pub proof fn lemma_reads_text_element(
    decoder: DecoderView,
    fallback: Option<Seq<char>>,
    text: Seq<char>,
    valid: spec_fn(Seq<char>) -> bool,
    rule: Seq<char>,
)
    requires
        next_name(decoder.scopes, fallback) is Some,
        decoder.spells(element(given_name(decoder.scopes, fallback), text_markup(text))) || (
        text.len() == 0 && decoder.spells(
            element(given_name(decoder.scopes, fallback), Seq::empty()),
        )),
        valid(text),
    ensures
        decoder.text_element(fallback, valid, rule) matches Reading::Read(read, _) && read == text,
{
    let (name, scopes) = next_name(decoder.scopes, fallback)->0;
    let at_start = DecoderView { scopes, ..decoder };
    let full = element(name, text_markup(text));
    let bare = element(name, Seq::empty());
    reveal_with_fuel(DecoderView::spells, 4);
    assert(full[0] == Markup::Start(name));
    assert(bare[0] == Markup::Start(name));
    assert(full.skip(1) =~= seq![Markup::Text(text), Markup::End(name)]);
    assert(full.skip(1).skip(1) =~= seq![Markup::End(name)]);
    assert(bare.skip(1) =~= seq![Markup::End(name)]);
    let first = decoder.lookahead->0;
    assert(token_of(first, Markup::Start(name)));
    assert(at_start.start(name) == Reading::Read((), at_start.advanced()));
    let inside = at_start.advanced();
    assert(inside == (DecoderView { scopes, ..decoder.advanced() }));
    if text.len() == 0 {
        assert(inside.lookahead->0 is EndElement);
        assert(inside.text() == Reading::Read(Seq::<char>::empty(), inside));
        assert(text =~= Seq::<char>::empty());
    } else {
        assert(decoder.spells(full));
        assert(decoder.advanced().spells(full.skip(1)));
        assert(!is_silent(full.skip(1)[0]));
    }
}

/// A boolean is read back from what was written for it.
pub proof fn lemma_boolean_round_trip(decoder: DecoderView, value: bool)
    requires
        next_name(decoder.scopes, Some(BOOLEAN_TYPE_TAG@)) is Some,
        decoder.spells(
            element(given_name(decoder.scopes, Some(BOOLEAN_TYPE_TAG@)), bool_markup(value)),
        ),
    ensures
        decoder.boolean() matches Reading::Read(read, _) && read == value,
{
    let (name, scopes) = next_name(decoder.scopes, Some(BOOLEAN_TYPE_TAG@))->0;
    let word = if value {
        BOOLEAN_TRUE_TAG@
    } else {
        BOOLEAN_FALSE_TAG@
    };
    let full = element(name, bool_markup(value));
    reveal_with_fuel(DecoderView::spells, 5);
    reveal_strlit("true");
    reveal_strlit("false");
    assert(BOOLEAN_TRUE_TAG@.len() == 4);
    assert(BOOLEAN_FALSE_TAG@.len() == 5);
    assert(full =~= seq![
        Markup::Start(name),
        Markup::Start(word),
        Markup::End(word),
        Markup::End(name),
    ]);
    let rest1 = full.skip(1);
    let rest2 = rest1.skip(1);
    let rest3 = rest2.skip(1);
    assert(rest1 =~= seq![Markup::Start(word), Markup::End(word), Markup::End(name)]);
    assert(rest2 =~= seq![Markup::End(word), Markup::End(name)]);
    assert(rest3 =~= seq![Markup::End(name)]);
    let at_start = DecoderView { scopes, ..decoder };
    let s1 = at_start.advanced();
    let s2 = s1.advanced();
    let s3 = s2.advanced();
    assert(s1 == (DecoderView { scopes, ..decoder.advanced() }));
    assert(s2 == (DecoderView { scopes, ..decoder.advanced().advanced() }));
    assert(s3 == (DecoderView { scopes, ..decoder.advanced().advanced().advanced() }));
    assert(at_start.start(name) == Reading::Read((), s1));
    assert(s1.start(word) == Reading::Read((), s2));
    assert(s2.end(word) == Reading::Read((), s3));
    assert(s1.truth() == Reading::Read(value, s3));
}

/// A bit string is read back from what was written for it. One without bits
/// is written as an element without content, and read back as one without
/// bits.
pub proof fn lemma_bit_string_round_trip(decoder: DecoderView, bits: Seq<bool>)
    requires
        next_name(decoder.scopes, Some(BIT_STRING_TYPE_TAG@)) is Some,
        decoder.spells(
            element(given_name(decoder.scopes, Some(BIT_STRING_TYPE_TAG@)), bits_markup(bits)),
        ),
    ensures
        bits.len() == 0 ==> bits_markup(bits) == Seq::<Markup>::empty(),
        decoder.bit_string() matches Reading::Read(text, _) && text_bits(text) == bits,
{
    lemma_bits_round_trip(bits);
    if bits.len() == 0 {
        assert(bits_text(bits) =~= Seq::<char>::empty());
    }
    lemma_reads_text_element(
        decoder,
        Some(BIT_STRING_TYPE_TAG@),
        bits_text(bits),
        |text: Seq<char>| is_bits_text(text),
        BIT_STRING_RULE@,
    );
}

/// An octet string is read back from what was written for it. One without
/// octets is written as an element without content, and read back as one
/// without octets.
pub proof fn lemma_octet_string_round_trip(decoder: DecoderView, bytes: Seq<u8>)
    requires
        next_name(decoder.scopes, Some(OCTET_STRING_TYPE_TAG@)) is Some,
        decoder.spells(
            element(
                given_name(decoder.scopes, Some(OCTET_STRING_TYPE_TAG@)),
                octets_markup(bytes),
            ),
        ),
    ensures
        bytes.len() == 0 ==> octets_markup(bytes) == Seq::<Markup>::empty(),
        decoder.octet_string() matches Reading::Read(text, _) && text_bytes(text) == bytes,
{
    lemma_hex_round_trip(bytes);
    if bytes.len() == 0 {
        assert(hex_text(bytes) =~= Seq::<char>::empty());
    }
    lemma_reads_text_element(
        decoder,
        Some(OCTET_STRING_TYPE_TAG@),
        hex_text(bytes),
        |text: Seq<char>| is_hex_text(text),
        OCTET_STRING_RULE@,
    );
}

/// An integer is read back from what was written for it.
pub proof fn lemma_integer_round_trip(decoder: DecoderView, n: int)
    requires
        next_name(decoder.scopes, Some(INTEGER_TYPE_TAG@)) is Some,
        decoder.spells(
            element(
                given_name(decoder.scopes, Some(INTEGER_TYPE_TAG@)),
                text_markup(decimal_text(n)),
            ),
        ),
    ensures
        decoder.integer() matches Reading::Read(text, _) && decimal_value(text) == n,
{
    lemma_decimal_round_trip(n);
    lemma_reads_text_element(
        decoder,
        Some(INTEGER_TYPE_TAG@),
        decimal_text(n),
        |text: Seq<char>| is_decimal(text),
        INTEGER_RULE@,
    );
}

/// A string is read back from what was written for it.
pub proof fn lemma_utf8_string_round_trip(decoder: DecoderView, text: Seq<char>)
    requires
        next_name(decoder.scopes, Some(UTF8_STRING_TYPE_TAG@)) is Some,
        decoder.spells(
            element(given_name(decoder.scopes, Some(UTF8_STRING_TYPE_TAG@)), text_markup(text)),
        ),
    ensures
        decoder.utf8_string() matches Reading::Read(read, _) && read == text,
{
    lemma_reads_text_element(
        decoder,
        Some(UTF8_STRING_TYPE_TAG@),
        text,
        |text: Seq<char>| true,
        Seq::empty(),
    );
}

/// The null value is read back from what was written for it.
pub proof fn lemma_null_round_trip(decoder: DecoderView)
    requires
        next_name(decoder.scopes, Some(NULL_TYPE_TAG@)) is Some,
        decoder.spells(
            element(given_name(decoder.scopes, Some(NULL_TYPE_TAG@)), Seq::empty()),
        ),
    ensures
        decoder.null() is Read,
{
    let (name, scopes) = next_name(decoder.scopes, Some(NULL_TYPE_TAG@))->0;
    let full = element(name, Seq::empty());
    reveal_with_fuel(DecoderView::spells, 3);
    assert(full =~= seq![Markup::Start(name), Markup::End(name)]);
    assert(full.skip(1) =~= seq![Markup::End(name)]);
    let at_start = DecoderView { scopes, ..decoder };
    assert(at_start.advanced() == (DecoderView { scopes, ..decoder.advanced() }));
    assert(at_start.start(name) == Reading::Read((), at_start.advanced()));
}

/// An object identifier is read back from what was written for it.
pub proof fn lemma_object_identifier_round_trip(decoder: DecoderView, arcs: Seq<u32>)
    requires
        next_name(decoder.scopes, Some(OBJECT_IDENTIFIER_TYPE_TAG@)) is Some,
        decoder.spells(
            element(
                given_name(decoder.scopes, Some(OBJECT_IDENTIFIER_TYPE_TAG@)),
                text_markup(arcs_text(arcs)),
            ),
        ),
    ensures
        decoder.object_identifier() matches Reading::Read(text, _) && text_arcs(text) == Some(arcs),
{
    lemma_arcs_round_trip(arcs);
    lemma_reads_text_element(
        decoder,
        Some(OBJECT_IDENTIFIER_TYPE_TAG@),
        arcs_text(arcs),
        |text: Seq<char>| text_arcs(text) is Some,
        OBJECT_IDENTIFIER_RULE@,
    );
}

/// A value that is written as the text of its bytes, a restricted string or
/// a time, is read back from what was written for it: the bytes of the text
/// read are its bytes.
pub proof fn lemma_bytes_round_trip(decoder: DecoderView, own_name: Seq<char>, bytes: Seq<u8>)
    requires
        valid_utf8(bytes),
        next_name(decoder.scopes, Some(own_name)) is Some,
        decoder.spells(
            element(
                given_name(decoder.scopes, Some(own_name)),
                text_markup(decode_utf8(bytes)),
            ),
        ),
    ensures
        decoder.string(own_name) matches Reading::Read(text, _) && encode_utf8(text) == bytes,
{
    decode_utf8_encode_utf8(bytes);
    lemma_reads_text_element(
        decoder,
        Some(own_name),
        decode_utf8(bytes),
        |text: Seq<char>| true,
        Seq::empty(),
    );
}

} // verus!
