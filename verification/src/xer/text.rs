//! The textual forms of primitive values: what stands between the start and
//! the end of an element, and how it is read back.

use vstd::prelude::*;

verus! {

/// `String::push`: the character is appended.
pub assume_specification[ String::push ](s: &mut String, c: char)
    ensures
        final(s)@ == old(s)@.push(c),
;

/// `==` of two string slices: whether they hold the same characters.
#[verifier::external_body]
pub(crate) fn same_text(a: &str, b: &str) -> (same: bool)
    ensures
        same == (a@ == b@),
{
    a == b
}

/// The text `text` as `Debug` shows it: between double quotes, with what
/// cannot stand there as it is written as an escape.
pub uninterp spec fn quoted_text(text: Seq<char>) -> Seq<char>;

/// The `Debug` of a string slice: the quoted text.
#[verifier::external_body]
pub(crate) fn quoted(text: &str) -> (shown: String)
    ensures
        shown@ == quoted_text(text@),
{
    format!("{text:?}")
}

/// Whether `c` is white space: a character with the Unicode property
/// `White_Space`.
pub open spec fn is_space(c: char) -> bool {
    let n = c as u32;
    ||| 0x09 <= n <= 0x0D
    ||| n == 0x20
    ||| n == 0x85
    ||| n == 0xA0
    ||| n == 0x1680
    ||| 0x2000 <= n <= 0x200A
    ||| n == 0x2028
    ||| n == 0x2029
    ||| n == 0x202F
    ||| n == 0x205F
    ||| n == 0x3000
}

/// Tells whether `c` is white space.
pub fn is_white_space(c: char) -> (b: bool)
    ensures
        b == is_space(c),
{
    let n: u32 = c as u32;
    (0x09 <= n && n <= 0x0D) || n == 0x20 || n == 0x85 || n == 0xA0 || n == 0x1680 || (0x2000
        <= n && n <= 0x200A) || n == 0x2028 || n == 0x2029 || n == 0x202F || n == 0x205F || n
        == 0x3000
}

/// `text` with its white space taken out.
pub open spec fn without_space(text: Seq<char>) -> Seq<char>
    decreases text.len(),
{
    if text.len() == 0 {
        Seq::empty()
    } else if is_space(text.last()) {
        without_space(text.drop_last())
    } else {
        without_space(text.drop_last()).push(text.last())
    }
}

/// Taking the white space out of a text and then one more character off its
/// end, or the other way round.
pub proof fn lemma_without_space_push(text: Seq<char>, c: char)
    ensures
        without_space(text.push(c)) == if is_space(c) {
            without_space(text)
        } else {
            without_space(text).push(c)
        },
{
    assert(text.push(c).drop_last() =~= text);
}

/// A text that holds no white space is left as it is.
pub proof fn lemma_without_space_none(text: Seq<char>)
    requires
        forall|i: int| 0 <= i < text.len() ==> !is_space(text[i]),
    ensures
        without_space(text) == text,
    decreases text.len(),
{
    if text.len() > 0 {
        lemma_without_space_none(text.drop_last());
        assert(text.drop_last().push(text.last()) =~= text);
    }
}

/// What is left after the white space is taken out holds none.
pub proof fn lemma_without_space_clean(text: Seq<char>)
    ensures
        forall|i: int| 0 <= i < without_space(text).len() ==> !is_space(
            #[trigger] without_space(text)[i],
        ),
        without_space(without_space(text)) == without_space(text),
    decreases text.len(),
{
    if text.len() > 0 {
        lemma_without_space_clean(text.drop_last());
    }
    lemma_without_space_none(without_space(text));
}

// ---------------------------------------------------------------------------
// Bit strings
// ---------------------------------------------------------------------------
/// The character that stands for one bit.
pub open spec fn bit_char(bit: bool) -> char {
    if bit {
        '1'
    } else {
        '0'
    }
}

/// The text of a bit string: one character per bit, first bit first.
pub open spec fn bits_text(bits: Seq<bool>) -> Seq<char> {
    Seq::new(bits.len(), |i: int| bit_char(bits[i]))
}

/// Whether `text` is the text of some bit string: zeros, ones and white
/// space, any number of each.
pub open spec fn is_bits_text(text: Seq<char>) -> bool {
    forall|i: int| 0 <= i < text.len() ==> text[i] == '0' || text[i] == '1' || is_space(text[i])
}

/// The bit string that `text` stands for: its characters other than white
/// space, each read as a bit.
pub open spec fn text_bits(text: Seq<char>) -> Seq<bool> {
    Seq::new(without_space(text).len(), |i: int| without_space(text)[i] == '1')
}

/// A bit string is read back from its text.
pub proof fn lemma_bits_round_trip(bits: Seq<bool>)
    ensures
        is_bits_text(bits_text(bits)),
        text_bits(bits_text(bits)) == bits,
{
    lemma_without_space_none(bits_text(bits));
    assert(text_bits(bits_text(bits)) =~= bits);
}

/// White space in the text of a bit string means nothing: the text and the
/// text without its white space stand for the same bits, and one is
/// well formed where the other is.
pub proof fn lemma_bits_ignore_space(text: Seq<char>)
    ensures
        text_bits(without_space(text)) == text_bits(text),
        is_bits_text(without_space(text)) == is_bits_text(text),
{
    lemma_without_space_clean(text);
    lemma_bits_text_without_space(text);
}

/// A text is well formed where its characters other than white space are
/// all zeros and ones.
pub proof fn lemma_bits_text_without_space(text: Seq<char>)
    ensures
        is_bits_text(text) <==> (forall|i: int|
            0 <= i < without_space(text).len() ==> #[trigger] without_space(text)[i] == '0'
                || without_space(text)[i] == '1'),
        is_bits_text(text) <==> is_bits_text(without_space(text)),
    decreases text.len(),
{
    lemma_without_space_clean(text);
    if text.len() > 0 {
        let head = text.drop_last();
        lemma_bits_text_without_space(head);
        lemma_without_space_clean(head);
        assert(head.push(text.last()) =~= text);
        if is_bits_text(text) {
            assert forall|i: int| 0 <= i < head.len() implies head[i] == '0' || head[i] == '1'
                || is_space(head[i]) by {
                assert(head[i] == text[i]);
            }
        }
        if forall|i: int|
            0 <= i < without_space(text).len() ==> #[trigger] without_space(text)[i] == '0'
                || without_space(text)[i] == '1' {
            assert forall|i: int| 0 <= i < without_space(head).len() implies #[trigger] without_space(
                head,
            )[i] == '0' || without_space(head)[i] == '1' by {
                assert(without_space(text)[i] == without_space(head)[i]);
            }
            assert(is_bits_text(head));
            if !is_space(text.last()) {
                assert(without_space(text)[without_space(head).len() as int] == text.last());
            }
            assert forall|i: int| 0 <= i < text.len() implies text[i] == '0' || text[i] == '1'
                || is_space(text[i]) by {
                if i < head.len() {
                    assert(head[i] == text[i]);
                }
            }
        }
        if is_bits_text(text) {
            assert(is_bits_text(head));
            assert(text.last() == text[text.len() - 1]);
        }
    }
}

/// Writes a bit string as text.
pub fn bitstring_text(bits: &[bool]) -> (text: String)
    ensures
        text@ == bits_text(bits@),
{
    let mut text = String::new();
    let mut i: usize = 0;
    while i < bits.len()
        invariant
            i <= bits.len(),
            text@ == bits_text(bits@.take(i as int)),
        decreases bits.len() - i,
    {
        text.push(if bits[i] { '1' } else { '0' });
        i = i + 1;
        assert(text@ =~= bits_text(bits@.take(i as int)));
    }
    assert(bits@.take(i as int) =~= bits@);
    text
}

/// Reads a bit string from text; `None` where the text holds anything but
/// zeros, ones and white space.
pub fn read_bits(text: &str) -> (bits: Option<Vec<bool>>)
    ensures
        bits is Some <==> is_bits_text(text@),
        bits matches Some(b) ==> b@ == text_bits(text@),
{
    let mut bits: Vec<bool> = Vec::new();
    for c in it: text.chars()
        invariant
            it.seq() == text@,
            is_bits_text(text@.take(it.index() as int)),
            bits@ == text_bits(text@.take(it.index() as int)),
    {
        let ghost before = text@.take(it.index() as int);
        proof {
            assert(text@.take(it.index() + 1).drop_last() =~= before);
            assert(text@.take(it.index() + 1) =~= before.push(c));
        }
        if c == '1' {
            bits.push(true);
        } else if c == '0' {
            bits.push(false);
        } else if !is_white_space(c) {
            proof {
                assert(text@[it.index() as int] == c);
            }
            return None;
        }
        proof {
            let now = text@.take(it.index() + 1);
            assert forall|i: int| 0 <= i < now.len() implies now[i] == '0' || now[i] == '1'
                || is_space(now[i]) by {
                if i < before.len() {
                    assert(before[i] == now[i]);
                }
            }
            assert(bits@ =~= text_bits(now));
        }
    }
    proof {
        assert(text@.take(text@.len() as int) =~= text@);
    }
    Some(bits)
}


// ---------------------------------------------------------------------------
// Octet strings
// ---------------------------------------------------------------------------
/// The upper-case hexadecimal digit for `n`, which is below 16.
pub open spec fn hex_char(n: int) -> char {
    if n < 10 {
        (n + 48) as u8 as char
    } else {
        (n + 55) as u8 as char
    }
}

/// What a hexadecimal digit, of either case, is worth.
pub open spec fn hex_value(c: char) -> Option<int> {
    if '0' <= c <= '9' {
        Some(c as u32 - 48)
    } else if 'A' <= c <= 'F' {
        Some(c as u32 - 55)
    } else if 'a' <= c <= 'f' {
        Some(c as u32 - 87)
    } else {
        None
    }
}

/// The text of an octet string: two upper-case hexadecimal digits per octet.
pub open spec fn hex_text(bytes: Seq<u8>) -> Seq<char> {
    Seq::new(
        2 * bytes.len(),
        |i: int|
            if i % 2 == 0 {
                hex_char(bytes[i / 2] as int / 16)
            } else {
                hex_char(bytes[i / 2] as int % 16)
            },
    )
}

/// Whether `text` is the text of some octet string: hexadecimal digits, an
/// even number of them, and white space.
pub open spec fn is_hex_text(text: Seq<char>) -> bool {
    let digits = without_space(text);
    &&& digits.len() % 2 == 0
    &&& forall|i: int| 0 <= i < digits.len() ==> hex_value(#[trigger] digits[i]) is Some
}

/// The octet string that `text` stands for: each pair of its digits gives one
/// octet.
pub open spec fn text_bytes(text: Seq<char>) -> Seq<u8> {
    let digits = without_space(text);
    Seq::new(
        digits.len() / 2,
        |i: int| (hex_value(digits[2 * i])->0 * 16 + hex_value(digits[2 * i + 1])->0) as u8,
    )
}

/// A hexadecimal digit is worth the number it was written for.
pub proof fn lemma_hex_char_value(n: int)
    requires
        0 <= n < 16,
    ensures
        hex_value(hex_char(n)) == Some(n),
        !is_space(hex_char(n)),
{
}

/// An octet string is read back from its text.
pub proof fn lemma_hex_round_trip(bytes: Seq<u8>)
    ensures
        is_hex_text(hex_text(bytes)),
        text_bytes(hex_text(bytes)) == bytes,
{
    let text = hex_text(bytes);
    assert forall|i: int| 0 <= i < text.len() implies !is_space(text[i]) && hex_value(text[i])
        is Some by {
        lemma_hex_char_value(bytes[i / 2] as int / 16);
        lemma_hex_char_value(bytes[i / 2] as int % 16);
    }
    lemma_without_space_none(text);
    assert forall|i: int| 0 <= i < bytes.len() implies text_bytes(text)[i] == bytes[i] by {
        lemma_hex_char_value(bytes[i] as int / 16);
        lemma_hex_char_value(bytes[i] as int % 16);
        assert(text[2 * i] == hex_char(bytes[i] as int / 16));
        assert(text[2 * i + 1] == hex_char(bytes[i] as int % 16));
    }
    assert(text_bytes(text) =~= bytes);
}

/// White space in the text of an octet string means nothing.
pub proof fn lemma_hex_ignore_space(text: Seq<char>)
    ensures
        text_bytes(without_space(text)) == text_bytes(text),
        is_hex_text(without_space(text)) == is_hex_text(text),
{
    lemma_without_space_clean(text);
}

/// The upper-case hexadecimal digit for `n`.
fn hex_digit(n: u8) -> (c: char)
    requires
        n < 16,
    ensures
        c == hex_char(n as int),
{
    if n < 10 {
        (n + 48) as char
    } else {
        (n + 55) as char
    }
}

/// What `c` is worth as a hexadecimal digit, if it is one.
fn hex_digit_value(c: char) -> (v: Option<u8>)
    ensures
        v is Some <==> hex_value(c) is Some,
        v matches Some(n) ==> n < 16 && hex_value(c) == Some(n as int),
{
    if '0' <= c && c <= '9' {
        Some((c as u32 - 48) as u8)
    } else if 'A' <= c && c <= 'F' {
        Some((c as u32 - 55) as u8)
    } else if 'a' <= c && c <= 'f' {
        Some((c as u32 - 87) as u8)
    } else {
        None
    }
}

/// Writes an octet string as text.
pub fn octets_text(bytes: &[u8]) -> (text: String)
    ensures
        text@ == hex_text(bytes@),
{
    let mut text = String::new();
    let mut i: usize = 0;
    while i < bytes.len()
        invariant
            i <= bytes.len(),
            text@ == hex_text(bytes@.take(i as int)),
        decreases bytes.len() - i,
    {
        let byte = bytes[i];
        text.push(hex_digit(byte / 16));
        text.push(hex_digit(byte % 16));
        i = i + 1;
        assert(text@ =~= hex_text(bytes@.take(i as int)));
    }
    assert(bytes@.take(i as int) =~= bytes@);
    text
}

/// Reads an octet string from text; `None` where the text holds anything but
/// hexadecimal digits and white space, or an odd number of digits.
pub fn read_octets(text: &str) -> (bytes: Option<Vec<u8>>)
    ensures
        bytes is Some <==> is_hex_text(text@),
        bytes matches Some(b) ==> b@ == text_bytes(text@),
{
    let mut bytes: Vec<u8> = Vec::new();
    let mut high: Option<u8> = None;
    for c in it: text.chars()
        invariant
            it.seq() == text@,
            forall|i: int|
                0 <= i < without_space(text@.take(it.index() as int)).len() ==> hex_value(
                    #[trigger] without_space(text@.take(it.index() as int))[i],
                ) is Some,
            bytes@ == text_bytes(text@.take(it.index() as int)),
            high is None <==> without_space(text@.take(it.index() as int)).len() % 2 == 0,
            high matches Some(h) ==> h < 16 && hex_value(
                without_space(text@.take(it.index() as int)).last(),
            ) == Some(h as int),
    {
        let ghost before = text@.take(it.index() as int);
        let ghost now = text@.take(it.index() + 1);
        proof {
            assert(now =~= before.push(c));
            lemma_without_space_push(before, c);
        }
        if !is_white_space(c) {
            match hex_digit_value(c) {
                None => {
                    proof {
                        lemma_not_hex_text(text@, it.index() as int);
                    }
                    return None;
                },
                Some(low) => {
                    match high {
                        None => {
                            high = Some(low);
                        },
                        Some(h) => {
                            bytes.push(h * 16 + low);
                            high = None;
                        },
                    }
                },
            }
            proof {
                let d = without_space(now);
                assert forall|i: int| 0 <= i < d.len() implies hex_value(#[trigger] d[i])
                    is Some by {
                    if i < without_space(before).len() {
                        assert(d[i] == without_space(before)[i]);
                    }
                }
                assert(bytes@ =~= text_bytes(now));
            }
        }
    }
    proof {
        assert(text@.take(text@.len() as int) =~= text@);
    }
    if high.is_some() {
        None
    } else {
        Some(bytes)
    }
}

/// A text with a character that is neither a hexadecimal digit nor white
/// space is not the text of an octet string.
proof fn lemma_not_hex_text(text: Seq<char>, at: int)
    requires
        0 <= at < text.len(),
        !is_space(text[at]),
        hex_value(text[at]) is None,
    ensures
        !is_hex_text(text),
        exists|j: int|
            0 <= j < without_space(text).len() && hex_value(#[trigger] without_space(text)[j])
                is None,
    decreases text.len(),
{
    if at == text.len() - 1 {
        let j = without_space(text).len() - 1;
        assert(without_space(text)[j] == text[at]);
    } else {
        let head = text.drop_last();
        assert(head[at] == text[at]);
        lemma_not_hex_text(head, at);
        let j = choose|j: int|
            0 <= j < without_space(head).len() && hex_value(#[trigger] without_space(head)[j])
                is None;
        assert(without_space(text)[j] == without_space(head)[j]);
    }
}


// ---------------------------------------------------------------------------
// Numbers
// ---------------------------------------------------------------------------
/// The decimal digit for `n`, which is below 10.
pub open spec fn digit_char(n: int) -> char {
    (n + 48) as u8 as char
}

/// Whether `c` is a decimal digit.
pub open spec fn is_digit(c: char) -> bool {
    '0' <= c <= '9'
}

/// The decimal digits of `n`, without leading zeros.
pub open spec fn decimal_digits(n: nat) -> Seq<char>
    decreases n,
{
    if n < 10 {
        seq![digit_char(n as int)]
    } else {
        decimal_digits(n / 10).push(digit_char((n % 10) as int))
    }
}

/// The text of an integer: its decimal digits, after a `-` where it is
/// negative.
pub open spec fn decimal_text(n: int) -> Seq<char> {
    if n < 0 {
        seq!['-'] + decimal_digits((-n) as nat)
    } else {
        decimal_digits(n as nat)
    }
}

/// The number that a run of decimal digits stands for.
pub open spec fn digits_value(digits: Seq<char>) -> nat
    decreases digits.len(),
{
    if digits.len() == 0 {
        0
    } else {
        (digits_value(digits.drop_last()) * 10 + (digits.last() as u32 - 48)) as nat
    }
}

/// Whether `digits` is a run of one or more decimal digits.
pub open spec fn is_digits(digits: Seq<char>) -> bool {
    digits.len() > 0 && forall|i: int| 0 <= i < digits.len() ==> is_digit(#[trigger] digits[i])
}

/// Whether `text` is the text of some integer: decimal digits, which a `-`
/// may precede.
pub open spec fn is_decimal(text: Seq<char>) -> bool {
    if text.len() > 0 && text[0] == '-' {
        is_digits(text.skip(1))
    } else {
        is_digits(text)
    }
}

/// The integer that `text` stands for.
pub open spec fn decimal_value(text: Seq<char>) -> int {
    if text.len() > 0 && text[0] == '-' {
        -(digits_value(text.skip(1)) as int)
    } else {
        digits_value(text) as int
    }
}

/// The decimal digits of a number are digits, and stand for it.
pub proof fn lemma_digits_round_trip(n: nat)
    ensures
        is_digits(decimal_digits(n)),
        digits_value(decimal_digits(n)) == n,
    decreases n,
{
    if n < 10 {
        let d = decimal_digits(n);
        assert(d.drop_last() =~= Seq::<char>::empty());
        assert(digits_value(d.drop_last()) == 0);
    } else {
        lemma_digits_round_trip(n / 10);
        let d = decimal_digits(n);
        assert(d.drop_last() =~= decimal_digits(n / 10));
        assert forall|i: int| 0 <= i < d.len() implies is_digit(#[trigger] d[i]) by {
            if i < d.len() - 1 {
                assert(d[i] == decimal_digits(n / 10)[i]);
            }
        }
    }
}

/// An integer is read back from its text.
pub proof fn lemma_decimal_round_trip(n: int)
    ensures
        is_decimal(decimal_text(n)),
        decimal_value(decimal_text(n)) == n,
{
    if n < 0 {
        lemma_digits_round_trip((-n) as nat);
        assert(decimal_text(n).skip(1) =~= decimal_digits((-n) as nat));
    } else {
        lemma_digits_round_trip(n as nat);
    }
}

/// Appends the decimal digits of `n` to `text`.
pub fn push_decimal(text: &mut String, n: u32)
    ensures
        final(text)@ == old(text)@ + decimal_digits(n as nat),
    decreases n,
{
    if n >= 10 {
        push_decimal(text, n / 10);
    }
    text.push(((n % 10) as u8 + 48) as char);
    assert(text@ =~= old(text)@ + decimal_digits(n as nat));
}

/// Tells whether `text` is the text of an integer.
pub fn is_decimal_text(text: &str) -> (b: bool)
    ensures
        b == is_decimal(text@),
{
    let mut first = true;
    let mut negative = false;
    let mut any = false;
    for c in it: text.chars()
        invariant
            it.seq() == text@,
            first <==> it.index() == 0,
            negative <==> it.index() > 0 && text@[0] == '-',
            any <==> it.index() > (if negative {
                1int
            } else {
                0int
            }),
            forall|i: int|
                (if negative {
                    1int
                } else {
                    0int
                }) <= i < it.index() ==> is_digit(#[trigger] text@[i]),
    {
        if first && c == '-' {
            negative = true;
        } else if '0' <= c && c <= '9' {
            any = true;
        } else {
            proof {
                let at = it.index() as int;
                if text@[0] == '-' {
                    assert(text@.skip(1)[at - 1] == text@[at]);
                }
            }
            return false;
        }
        first = false;
    }
    proof {
        if negative {
            assert forall|i: int| 0 <= i < text@.skip(1).len() implies is_digit(
                #[trigger] text@.skip(1)[i],
            ) by {
                assert(text@.skip(1)[i] == text@[i + 1]);
            }
        }
    }
    any
}

/// The text of an object identifier: the decimal digits of its arcs, with a
/// `.` between one arc and the next.
pub open spec fn arcs_text(arcs: Seq<u32>) -> Seq<char>
    decreases arcs.len(),
{
    if arcs.len() == 0 {
        Seq::empty()
    } else if arcs.len() == 1 {
        decimal_digits(arcs[0] as nat)
    } else {
        arcs_text(arcs.drop_last()) + seq!['.'] + decimal_digits(arcs.last() as nat)
    }
}

/// Writes an object identifier as text.
pub fn object_identifier_text(arcs: &[u32]) -> (text: String)
    ensures
        text@ == arcs_text(arcs@),
{
    let mut text = String::new();
    let mut i: usize = 0;
    while i < arcs.len()
        invariant
            i <= arcs.len(),
            text@ == arcs_text(arcs@.take(i as int)),
        decreases arcs.len() - i,
    {
        if i > 0 {
            text.push('.');
        }
        push_decimal(&mut text, arcs[i]);
        proof {
            assert(arcs@.take(i + 1).drop_last() =~= arcs@.take(i as int));
            assert(text@ =~= arcs_text(arcs@.take(i + 1)));
        }
        i = i + 1;
    }
    assert(arcs@.take(i as int) =~= arcs@);
    text
}


/// Where reading the text of an object identifier stands after `text`: the
/// arcs that a `.` has ended, and the value of the digits read since. `None`
/// where the text holds anything but digits and dots, a `.` that no digit
/// precedes, or an arc too large for 32 bits.
pub open spec fn arcs_scan(text: Seq<char>) -> Option<(Seq<u32>, Option<nat>)>
    decreases text.len(),
{
    if text.len() == 0 {
        Some((Seq::empty(), None))
    } else {
        match arcs_scan(text.drop_last()) {
            None => None,
            Some((arcs, current)) => {
                let c = text.last();
                if is_digit(c) {
                    let so_far = match current {
                        Some(value) => value,
                        None => 0,
                    };
                    let value = (so_far * 10 + (c as u32 - 48)) as nat;
                    if value <= u32::MAX {
                        Some((arcs, Some(value)))
                    } else {
                        None
                    }
                } else if c == '.' {
                    match current {
                        Some(value) => Some((arcs.push(value as u32), None)),
                        None => None,
                    }
                } else {
                    None
                }
            },
        }
    }
}

/// The object identifier that `text` stands for: the numbers between its
/// dots. `None` where `text` is not the text of one; the empty text is the
/// text of the one without arcs.
pub open spec fn text_arcs(text: Seq<char>) -> Option<Seq<u32>> {
    match arcs_scan(text) {
        Some((arcs, Some(value))) => Some(arcs.push(value as u32)),
        Some((arcs, None)) => if text.len() == 0 {
            Some(arcs)
        } else {
            None
        },
        None => None,
    }
}

/// A text that cannot be read up to some place cannot be read as a whole.
proof fn lemma_arcs_scan_stuck(text: Seq<char>, upto: int)
    requires
        0 <= upto <= text.len(),
        arcs_scan(text.take(upto)) is None,
    ensures
        arcs_scan(text) is None,
    decreases text.len() - upto,
{
    if upto < text.len() {
        assert(text.take(upto + 1).drop_last() =~= text.take(upto));
        lemma_arcs_scan_stuck(text, upto + 1);
    } else {
        assert(text.take(upto) =~= text);
    }
}

/// Reading on after the end of an arc, through the digits of a number,
/// gives that number.
proof fn lemma_arcs_scan_digits(prefix: Seq<char>, arcs: Seq<u32>, n: nat)
    requires
        arcs_scan(prefix) == Some((arcs, None::<nat>)),
        n <= u32::MAX,
    ensures
        arcs_scan(prefix + decimal_digits(n)) == Some((arcs, Some(n))),
    decreases n,
{
    let digits = decimal_digits(n);
    if n < 10 {
        assert((prefix + digits).drop_last() =~= prefix);
        assert((prefix + digits).last() == digit_char(n as int));
    } else {
        lemma_arcs_scan_digits(prefix, arcs, n / 10);
        assert((prefix + digits).drop_last() =~= prefix + decimal_digits(n / 10));
        assert((prefix + digits).last() == digit_char((n % 10) as int));
    }
}

/// Reading through the text of an object identifier with at least one arc
/// gives its arcs but the last, and the last as the number read since.
proof fn lemma_arcs_scan_text(arcs: Seq<u32>)
    requires
        arcs.len() > 0,
    ensures
        arcs_scan(arcs_text(arcs)) == Some((arcs.drop_last(), Some(arcs.last() as nat))),
    decreases arcs.len(),
{
    if arcs.len() == 1 {
        lemma_arcs_scan_digits(Seq::empty(), Seq::empty(), arcs[0] as nat);
        assert(Seq::<char>::empty() + decimal_digits(arcs[0] as nat) =~= arcs_text(arcs));
        assert(arcs.drop_last() =~= Seq::<u32>::empty());
    } else {
        let head = arcs.drop_last();
        lemma_arcs_scan_text(head);
        let dotted = arcs_text(head) + seq!['.'];
        assert(dotted.drop_last() =~= arcs_text(head));
        assert(dotted.last() == '.');
        assert(head.drop_last().push(head.last()) =~= head);
        assert(arcs_scan(dotted) == Some((head, None::<nat>)));
        lemma_arcs_scan_digits(dotted, head, arcs.last() as nat);
    }
}

/// An object identifier is read back from its text.
pub proof fn lemma_arcs_round_trip(arcs: Seq<u32>)
    ensures
        text_arcs(arcs_text(arcs)) == Some(arcs),
{
    if arcs.len() > 0 {
        lemma_arcs_scan_text(arcs);
        lemma_digits_round_trip(arcs.last() as nat);
        assert(arcs.drop_last().push(arcs.last()) =~= arcs);
        if arcs.len() == 1 {
            assert(arcs_text(arcs).len() > 0);
        } else {
            assert(arcs_text(arcs).len() > 0);
        }
    } else {
        assert(arcs =~= Seq::<u32>::empty());
    }
}

/// Reads an object identifier from text; `None` where the text is not the
/// text of one.
pub fn read_arcs(text: &str) -> (arcs: Option<Vec<u32>>)
    ensures
        match text_arcs(text@) {
            Some(read) => arcs is Some && arcs->0@ == read,
            None => arcs is None,
        },
{
    let mut arcs: Vec<u32> = Vec::new();
    let mut current: Option<u32> = None;
    let mut any = false;
    for c in it: text.chars()
        invariant
            it.seq() == text@,
            any <==> it.index() > 0,
            arcs_scan(text@.take(it.index() as int)) == Some(
                (
                    arcs@,
                    match current {
                        Some(value) => Some(value as nat),
                        None => None::<nat>,
                    },
                ),
            ),
    {
        proof {
            assert(text@.take(it.index() + 1).drop_last() =~= text@.take(it.index() as int));
            assert(text@.take(it.index() + 1).last() == c);
        }
        if '0' <= c && c <= '9' {
            let so_far: u64 = match current {
                Some(value) => value as u64,
                None => 0,
            };
            let value: u64 = so_far * 10 + (c as u32 - 48) as u64;
            if value > u32::MAX as u64 {
                proof {
                    lemma_arcs_scan_stuck(text@, it.index() + 1);
                }
                return None;
            }
            current = Some(value as u32);
        } else if c == '.' {
            match current {
                Some(value) => {
                    arcs.push(value);
                    current = None;
                },
                None => {
                    proof {
                        lemma_arcs_scan_stuck(text@, it.index() + 1);
                    }
                    return None;
                },
            }
        } else {
            proof {
                lemma_arcs_scan_stuck(text@, it.index() + 1);
            }
            return None;
        }
        any = true;
    }
    proof {
        assert(text@.take(text@.len() as int) =~= text@);
    }
    match current {
        Some(value) => {
            arcs.push(value);
            Some(arcs)
        },
        None => if any {
            None
        } else {
            Some(arcs)
        },
    }
}

} // verus!
