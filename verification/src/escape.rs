//! Percent escaping of bytes into URL-safe text and back.
//!
//! The escaping itself is done by the `percent-encoding` crate; this module
//! states what it computes and proves that unescaping undoes escaping.

use vstd::prelude::*;
use vstd::utf8::{decode_utf8, encode_utf8, is_ascii_chars, is_ascii_chars_encode_utf8, valid_utf8};

verus! {

/// The byte `%`, which introduces an escape.
pub const PERCENT: u8 = 0x25;

/// Whether `b` is an ASCII letter or digit.
pub open spec fn is_alphanumeric(b: u8) -> bool {
    (0x30 <= b <= 0x39) || (0x41 <= b <= 0x5a) || (0x61 <= b <= 0x7a)
}

/// The upper-case hexadecimal digit for `d`, which is below 16.
pub open spec fn hex_digit(d: u8) -> u8
    recommends
        d < 16,
{
    if d < 10 {
        (0x30 + d) as u8
    } else {
        (0x41 + (d - 10)) as u8
    }
}

/// The value of the hexadecimal digit `c`, in either case.
pub open spec fn hex_value(c: u8) -> Option<u8> {
    if 0x30 <= c <= 0x39 {
        Some((c - 0x30) as u8)
    } else if 0x41 <= c <= 0x46 {
        Some((c - 0x41 + 10) as u8)
    } else if 0x61 <= c <= 0x66 {
        Some((c - 0x61 + 10) as u8)
    } else {
        None
    }
}

/// How one byte is written: a letter or digit as itself, any other byte as
/// `%` and its two upper-case hexadecimal digits.
pub open spec fn escaped_byte(b: u8) -> Seq<u8> {
    if is_alphanumeric(b) {
        seq![b]
    } else {
        seq![PERCENT, hex_digit(b / 16), hex_digit(b % 16)]
    }
}

/// The escaped form of `bytes`.
pub open spec fn escaped(bytes: Seq<u8>) -> Seq<u8>
    decreases bytes.len(),
{
    if bytes.len() == 0 {
        Seq::empty()
    } else {
        escaped_byte(bytes[0]) + escaped(bytes.skip(1))
    }
}

/// Whether `text` starts with `%` and two hexadecimal digits.
pub open spec fn starts_with_escape(text: Seq<u8>) -> bool {
    &&& text.len() >= 3
    &&& text[0] == PERCENT
    &&& hex_value(text[1]) is Some
    &&& hex_value(text[2]) is Some
}

/// The bytes that `text` stands for: each `%` followed by two hexadecimal
/// digits becomes the byte they spell, every other byte stays as it is.
pub open spec fn unescaped(text: Seq<u8>) -> Seq<u8>
    decreases text.len(),
{
    if text.len() == 0 {
        Seq::empty()
    } else if starts_with_escape(text) {
        seq![(hex_value(text[1]).unwrap() * 16 + hex_value(text[2]).unwrap()) as u8] + unescaped(
            text.skip(3),
        )
    } else {
        seq![text[0]] + unescaped(text.skip(1))
    }
}

/// Whether every byte is below 128.
pub open spec fn all_ascii(bytes: Seq<u8>) -> bool {
    forall|i: int| 0 <= i < bytes.len() ==> #[trigger] bytes[i] < 0x80
}

/// Whether every byte is a letter, a digit or `%`.
pub open spec fn url_safe(bytes: Seq<u8>) -> bool {
    forall|i: int|
        0 <= i < bytes.len() ==> is_alphanumeric(#[trigger] bytes[i]) || bytes[i] == PERCENT
}

/// The text whose characters are the given ASCII bytes.
pub open spec fn ascii_text(bytes: Seq<u8>) -> Seq<char> {
    Seq::new(bytes.len(), |i: int| bytes[i] as char)
}

/// A hexadecimal digit written by `hex_digit` is read back by `hex_value`.
pub proof fn lemma_hex_round_trip(d: u8)
    requires
        d < 16,
    ensures
        hex_value(hex_digit(d)) == Some(d),
        is_alphanumeric(hex_digit(d)),
{
}

/// Every byte of an escaped form is a letter, a digit or `%`.
pub proof fn lemma_escaped_url_safe(bytes: Seq<u8>)
    ensures
        url_safe(escaped(bytes)),
        all_ascii(escaped(bytes)),
    decreases bytes.len(),
{
    if bytes.len() > 0 {
        let b = bytes[0];
        lemma_hex_round_trip(b / 16);
        lemma_hex_round_trip(b % 16);
        lemma_escaped_url_safe(bytes.skip(1));
        let head = escaped_byte(b);
        let tail = escaped(bytes.skip(1));
        assert forall|i: int| 0 <= i < escaped(bytes).len() implies (is_alphanumeric(
            #[trigger] escaped(bytes)[i],
        ) || escaped(bytes)[i] == PERCENT) by {
            if i >= head.len() {
                assert(escaped(bytes)[i] == tail[i - head.len()]);
            }
        }
    }
}

/// Unescaping an escaped byte followed by `rest` gives the byte followed by
/// what `rest` unescapes to.
pub proof fn lemma_unescaped_escaped_byte(b: u8, rest: Seq<u8>)
    ensures
        unescaped(escaped_byte(b) + rest) == seq![b] + unescaped(rest),
{
    let text = escaped_byte(b) + rest;
    if is_alphanumeric(b) {
        assert(text[0] == b);
        assert(!starts_with_escape(text));
        assert(text.skip(1) =~= rest);
    } else {
        lemma_hex_round_trip(b / 16);
        lemma_hex_round_trip(b % 16);
        assert(text[0] == PERCENT);
        assert(text[1] == hex_digit(b / 16));
        assert(text[2] == hex_digit(b % 16));
        assert(starts_with_escape(text));
        assert(text.skip(3) =~= rest);
        assert(((b / 16) * 16 + b % 16) as u8 == b);
    }
}

/// Unescaping undoes escaping.
pub proof fn lemma_unescaped_escaped(bytes: Seq<u8>)
    ensures
        unescaped(escaped(bytes)) == bytes,
    decreases bytes.len(),
{
    if bytes.len() > 0 {
        lemma_unescaped_escaped_byte(bytes[0], escaped(bytes.skip(1)));
        lemma_unescaped_escaped(bytes.skip(1));
        assert(seq![bytes[0]] + bytes.skip(1) =~= bytes);
    } else {
        assert(bytes =~= Seq::<u8>::empty());
    }
}

/// ASCII bytes read as text encode back to themselves.
pub proof fn lemma_ascii_text_utf8(bytes: Seq<u8>)
    requires
        all_ascii(bytes),
    ensures
        is_ascii_chars(ascii_text(bytes)),
        encode_utf8(ascii_text(bytes)) == bytes,
{
    let text = ascii_text(bytes);
    assert forall|i: int| 0 <= i < text.len() implies '\0' <= #[trigger] text[i] <= '\u{7f}' by {
        assert(bytes[i] < 0x80);
    }
    is_ascii_chars_encode_utf8(text);
    assert forall|i: int| 0 <= i < bytes.len() implies encode_utf8(text)[i] == bytes[i] by {
        assert(text[i] as u8 == encode_utf8(text)[i]);
        assert(bytes[i] < 0x80);
    }
    assert(encode_utf8(text) =~= bytes);
}

/// The text of an escaped form unescapes to the bytes that were escaped.
pub proof fn lemma_escape_round_trip(bytes: Seq<u8>)
    ensures
        unescaped(encode_utf8(ascii_text(escaped(bytes)))) == bytes,
        is_ascii_chars(ascii_text(escaped(bytes))),
{
    lemma_escaped_url_safe(bytes);
    lemma_ascii_text_utf8(escaped(bytes));
    lemma_unescaped_escaped(bytes);
}

/// The text that percent-decoding `text` and reading the bytes as UTF-8,
/// with a replacement character for each malformed part, gives.
pub uninterp spec fn unescaped_lossy(text: Seq<char>) -> Seq<char>;

/// Escapes `bytes` with `percent_encoding::percent_encode` and the set
/// `NON_ALPHANUMERIC`.
///
/// The contract claims that the crate leaves ASCII letters and digits as
/// they are and writes every other byte as `%XX` with upper-case digits.
#[verifier::external_body]
pub(crate) fn escape(bytes: &[u8]) -> (text: String)
    ensures
        text@ == ascii_text(escaped(bytes@)),
{
    percent_encoding::percent_encode(bytes, percent_encoding::NON_ALPHANUMERIC).to_string()
}

/// Unescapes `text` with `percent_encoding::percent_decode_str`.
///
/// The contract claims that the crate works on the UTF-8 bytes of `text`,
/// replaces each `%` that two hexadecimal digits follow by the byte they
/// spell, and copies everything else.
#[verifier::external_body]
pub(crate) fn unescape(text: &str) -> (bytes: Vec<u8>)
    ensures
        bytes@ == unescaped(encode_utf8(text@)),
{
    percent_encoding::percent_decode_str(text).collect()
}

/// Unescapes `text` to a string with
/// `percent_encoding::PercentDecode::decode_utf8_lossy`.
///
/// The contract names the result, and claims that where the unescaped
/// bytes are well-formed UTF-8 the result is exactly the text they encode.
#[verifier::external_body]
pub(crate) fn unescape_lossy(text: &str) -> (plain: String)
    ensures
        plain@ == unescaped_lossy(text@),
        valid_utf8(unescaped(encode_utf8(text@))) ==> plain@ == decode_utf8(
            unescaped(encode_utf8(text@)),
        ),
{
    percent_encoding::percent_decode_str(text).decode_utf8_lossy().into_owned()
}

} // verus!
