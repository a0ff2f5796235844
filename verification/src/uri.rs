//! Percent-encoding of text for use inside an address.
//!
//! The encoding works on the UTF-8 bytes of the text. ASCII letters, digits
//! and the four marks `- _ . ~`, which mean nothing in an address, are kept;
//! every other byte becomes `%` followed by its two upper-case hexadecimal
//! digits. So no character that separates the parts of an address, such as
//! `&`, `#`, `/`, `?` or `=`, and no blank, is left in an encoded text.

use vstd::prelude::*;
use vstd::utf8::{decode_utf8, encode_utf8, encode_utf8_decode_utf8};
use crate::decimal::digit_char;

verus! {

/// Whether `b` is an ASCII letter or digit.
pub open spec fn is_alphanumeric(b: u8) -> bool {
    let c = b as char;
    ('0' <= c <= '9') || ('A' <= c <= 'Z') || ('a' <= c <= 'z')
}

/// Whether `b` is one of the marks `- _ . ~`.
pub open spec fn is_mark(b: u8) -> bool {
    let c = b as char;
    c == '-' || c == '_' || c == '.' || c == '~'
}

/// Whether the encoding keeps `b` as it is.
pub open spec fn is_kept(b: u8) -> bool {
    is_alphanumeric(b) || is_mark(b)
}

/// The upper-case hexadecimal digit for `d`, for `0 <= d <= 15`.
pub open spec fn hex_char(d: int) -> char {
    if d < 10 {
        digit_char(d)
    } else {
        (('A' as u8) + d - 10) as u8 as char
    }
}

/// What the encoding writes for the single byte `b`.
pub open spec fn encoded_byte(b: u8) -> Seq<char> {
    if is_kept(b) {
        seq![b as char]
    } else {
        seq!['%', hex_char(b as int / 16), hex_char(b as int % 16)]
    }
}

/// The percent-encoding of `bytes`: the encodings of its bytes, one after another.
pub open spec fn percent_encoded(bytes: Seq<u8>) -> Seq<char>
    decreases bytes.len(),
{
    if bytes.len() == 0 {
        Seq::empty()
    } else {
        encoded_byte(bytes[0]) + percent_encoded(bytes.drop_first())
    }
}

/// The percent-encoding of `text`, taken as its UTF-8 bytes.
pub open spec fn encoded(text: Seq<char>) -> Seq<char> {
    percent_encoded(encode_utf8(text))
}

/// Encoding a sequence with one more byte at its end adds that byte's encoding at the end.
pub proof fn lemma_percent_encoded_push(bytes: Seq<u8>, b: u8)
    ensures
        percent_encoded(bytes.push(b)) == percent_encoded(bytes) + encoded_byte(b),
    decreases bytes.len(),
{
    if bytes.len() == 0 {
        assert(bytes.push(b).drop_first() =~= bytes);
        assert(percent_encoded(bytes.push(b)) =~= encoded_byte(b) + percent_encoded(bytes));
    } else {
        lemma_percent_encoded_push(bytes.drop_first(), b);
        assert(bytes.push(b).drop_first() =~= bytes.drop_first().push(b));
    }
}

/// The number that the hexadecimal digit `c` stands for; 0 for any other character.
pub open spec fn hex_value(c: char) -> int {
    if '0' <= c <= '9' {
        c as int - '0' as int
    } else if 'A' <= c <= 'F' {
        c as int - 'A' as int + 10
    } else if 'a' <= c <= 'f' {
        c as int - 'a' as int + 10
    } else {
        0
    }
}

/// The bytes that the percent-encoded text `chars` stands for: `%` and the
/// two characters after it are read as one byte in hexadecimal, every other
/// character stands for itself.
pub open spec fn percent_decoded(chars: Seq<char>) -> Seq<u8>
    decreases chars.len(),
{
    if chars.len() == 0 {
        Seq::empty()
    } else if chars[0] == '%' && chars.len() >= 3 {
        seq![(hex_value(chars[1]) * 16 + hex_value(chars[2])) as u8] + percent_decoded(
            chars.skip(3),
        )
    } else {
        seq![chars[0] as u8] + percent_decoded(chars.skip(1))
    }
}

/// Decoding undoes encoding, byte for byte.
pub proof fn lemma_percent_decoded_encoded(bytes: Seq<u8>)
    ensures
        percent_decoded(percent_encoded(bytes)) == bytes,
    decreases bytes.len(),
{
    if bytes.len() > 0 {
        let b = bytes[0];
        let rest = percent_encoded(bytes.drop_first());
        let all = percent_encoded(bytes);
        lemma_percent_decoded_encoded(bytes.drop_first());
        if is_kept(b) {
            assert(all.skip(1) =~= rest);
        } else {
            assert(all.skip(3) =~= rest);
            assert(hex_value(hex_char(b as int / 16)) == b as int / 16);
            assert(hex_value(hex_char(b as int % 16)) == b as int % 16);
        }
        assert(percent_decoded(all) =~= seq![b] + bytes.drop_first());
        assert(seq![b] + bytes.drop_first() =~= bytes);
    }
}

/// Decoding the percent-encoding of a text, and reading the bytes as UTF-8,
/// gives the text back: nothing of it is lost, whatever characters it holds.
pub proof fn lemma_encoded_round_trip(text: Seq<char>)
    ensures
        decode_utf8(percent_decoded(encoded(text))) == text,
{
    lemma_percent_decoded_encoded(encode_utf8(text));
    encode_utf8_decode_utf8(text);
}

/// Whether `c` may stand in an encoded text: an ASCII letter or digit, one of
/// the marks `- _ . ~`, or `%`.
pub open spec fn is_safe_char(c: char) -> bool {
    ('0' <= c <= '9') || ('A' <= c <= 'Z') || ('a' <= c <= 'z') || c == '-' || c == '_' || c
        == '.' || c == '~' || c == '%'
}

/// Whether every character of `chars` may stand in an encoded text. Such a
/// text holds no blank and none of `& # / ? = : ; , @ + $ ! * ' ( )`.
pub open spec fn is_safe(chars: Seq<char>) -> bool {
    forall|i: int| 0 <= i < chars.len() ==> is_safe_char(#[trigger] chars[i])
}

/// An encoding holds letters, digits, `- _ . ~` and `%` only, whatever bytes
/// were encoded.
pub proof fn lemma_percent_encoded_is_safe(bytes: Seq<u8>)
    ensures
        is_safe(percent_encoded(bytes)),
    decreases bytes.len(),
{
    if bytes.len() > 0 {
        let b = bytes[0];
        let first = encoded_byte(b);
        let rest = percent_encoded(bytes.drop_first());
        lemma_percent_encoded_is_safe(bytes.drop_first());
        assert(is_safe(first)) by {
            assert(is_safe_char(hex_char(b as int / 16)));
            assert(is_safe_char(hex_char(b as int % 16)));
        }
        assert forall|i: int| 0 <= i < (first + rest).len() implies is_safe_char(
            #[trigger] (first + rest)[i],
        ) by {
            if i < first.len() {
                assert((first + rest)[i] == first[i]);
            } else {
                assert((first + rest)[i] == rest[i - first.len()]);
            }
        }
    }
}

/// The encoding of a text holds letters, digits, `- _ . ~` and `%` only: no
/// blank, and no character that separates the parts of an address.
pub proof fn lemma_encoded_is_safe(text: Seq<char>)
    ensures
        is_safe(encoded(text)),
{
    lemma_percent_encoded_is_safe(encode_utf8(text));
}

/// Only the empty text has an empty encoding.
pub proof fn lemma_encoded_is_empty(text: Seq<char>)
    ensures
        encoded(text).len() == 0 <==> text.len() == 0,
{
    if text.len() > 0 {
        let bytes = encode_utf8(text);
        assert(bytes.len() > 0) by {
            encode_utf8_decode_utf8(text);
        }
        assert(encoded_byte(bytes[0]).len() > 0);
    }
}

fn keeps(b: u8) -> (r: bool)
    ensures
        r == is_kept(b),
{
    let c = b as char;
    ('0' <= c && c <= '9') || ('A' <= c && c <= 'Z') || ('a' <= c && c <= 'z') || c == '-'
        || c == '_' || c == '.' || c == '~'
}

fn hex_digit(d: u8) -> (c: char)
    requires
        d < 16,
    ensures
        c == hex_char(d as int),
{
    if d < 10 {
        // 48 is the code of `0`.
        (48u8 + d) as char
    } else {
        // 65 is the code of `A`, which stands for ten.
        (55u8 + d) as char
    }
}

/// Percent-encodes `text`.
pub fn encode_uri(text: &str) -> (encoded: String)
    ensures
        encoded@ == self::encoded(text@),
{
    let bytes = text.as_bytes();
    let mut encoded = String::new();
    let mut i: usize = 0;
    while i < bytes.len()
        invariant
            i <= bytes@.len(),
            encoded@ == percent_encoded(bytes@.take(i as int)),
        decreases bytes@.len() - i,
    {
        let b = bytes[i];
        if keeps(b) {
            encoded.push(b as char);
        } else {
            encoded.push('%');
            encoded.push(hex_digit(b / 16));
            encoded.push(hex_digit(b % 16));
        }
        proof {
            lemma_percent_encoded_push(bytes@.take(i as int), b);
            assert(bytes@.take(i + 1) =~= bytes@.take(i as int).push(b));
        }
        i += 1;
    }
    assert(bytes@.take(i as int) =~= bytes@);
    encoded
}

} // verus!
