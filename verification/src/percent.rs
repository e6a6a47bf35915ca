//! Strict percent-encoding: every byte but the unreserved characters
//! `A-Z a-z 0-9 - . _ ~` is written as `%` and two upper-case hex digits.

use vstd::prelude::*;
use vstd::utf8::*;
use crate::text::{
    append_bytes, is_ascii_bytes, lemma_ascii_concat, lemma_ascii_is_utf8, text_from_ascii,
    text_from_bytes,
};

verus! {

/// The unreserved characters, which are never encoded.
pub open spec fn is_unreserved(byte: u8) -> bool {
    ||| 0x41 <= byte <= 0x5a
    ||| 0x61 <= byte <= 0x7a
    ||| 0x30 <= byte <= 0x39
    ||| byte == 0x2d
    ||| byte == 0x2e
    ||| byte == 0x5f
    ||| byte == 0x7e
}

/// The upper-case hexadecimal digit of a value below 16.
pub open spec fn upper_hex_digit(value: int) -> u8 {
    if value < 10 {
        (0x30 + value) as u8
    } else {
        (0x41 + value - 10) as u8
    }
}

/// A byte written as `%XX`.
pub open spec fn escaped_byte(byte: u8) -> Seq<u8> {
    seq![0x25u8, upper_hex_digit(byte as int / 16), upper_hex_digit(byte as int % 16)]
}

/// What one byte becomes: itself where it is unreserved, else `%XX`.
pub open spec fn encoded_byte(byte: u8) -> Seq<u8> {
    if is_unreserved(byte) {
        seq![byte]
    } else {
        escaped_byte(byte)
    }
}

/// The percent-encoding of a byte string.
pub open spec fn percent_encoded(bytes: Seq<u8>) -> Seq<u8>
    decreases bytes.len(),
{
    if bytes.len() == 0 {
        Seq::empty()
    } else {
        percent_encoded(bytes.drop_last()) + encoded_byte(bytes.last())
    }
}

/// The value of a hexadecimal digit of either case.
pub open spec fn hex_value(digit: u8) -> Option<int> {
    if 0x30 <= digit <= 0x39 {
        Some(digit - 0x30)
    } else if 0x41 <= digit <= 0x46 {
        Some(digit - 0x41 + 10)
    } else if 0x61 <= digit <= 0x66 {
        Some(digit - 0x61 + 10)
    } else {
        None
    }
}

/// True when `text` starts with `%` and two hexadecimal digits.
pub open spec fn starts_with_escape(text: Seq<u8>) -> bool {
    &&& text.len() >= 3
    &&& text[0] == 0x25
    &&& hex_value(text[1]) is Some
    &&& hex_value(text[2]) is Some
}

/// The percent-decoding of a byte string: each `%` with two hexadecimal
/// digits behind it becomes the byte they spell, every other byte stays.
pub open spec fn percent_decoded(text: Seq<u8>) -> Seq<u8>
    decreases text.len(),
{
    if text.len() == 0 {
        Seq::empty()
    } else if starts_with_escape(text) {
        seq![(hex_value(text[1]).unwrap() * 16 + hex_value(text[2]).unwrap()) as u8]
            + percent_decoded(text.skip(3))
    } else {
        seq![text[0]] + percent_decoded(text.skip(1))
    }
}

/// Encoding distributes over concatenation.
pub proof fn lemma_percent_encoded_concat(a: Seq<u8>, b: Seq<u8>)
    ensures
        percent_encoded(a + b) == percent_encoded(a) + percent_encoded(b),
    decreases b.len(),
{
    if b.len() == 0 {
        assert(a + b =~= a);
    } else {
        assert((a + b).drop_last() =~= a + b.drop_last());
        lemma_percent_encoded_concat(a, b.drop_last());
        assert(percent_encoded(a + b) =~= percent_encoded(a) + percent_encoded(b));
    }
}

/// Encoded text is ASCII: unreserved bytes, `%` and hexadecimal digits.
pub proof fn lemma_percent_encoded_ascii(bytes: Seq<u8>)
    ensures
        is_ascii_bytes(percent_encoded(bytes)),
    decreases bytes.len(),
{
    if bytes.len() > 0 {
        lemma_percent_encoded_ascii(bytes.drop_last());
        assert(is_ascii_bytes(encoded_byte(bytes.last())));
        lemma_ascii_concat(percent_encoded(bytes.drop_last()), encoded_byte(bytes.last()));
    }
}

/// Unreserved characters are never encoded, and every other byte always is.
pub proof fn lemma_encoded_byte_cases(byte: u8)
    ensures
        is_unreserved(byte) ==> percent_encoded(seq![byte]) == seq![byte],
        !is_unreserved(byte) ==> percent_encoded(seq![byte]) == escaped_byte(byte),
        is_unreserved(0x2a) == false,
        is_unreserved(0x20) == false,
        is_unreserved(0x26) == false,
        is_unreserved(0x3d) == false,
{
    let s = seq![byte];
    assert(s.drop_last() =~= Seq::<u8>::empty());
    assert(percent_encoded(s.drop_last()) =~= Seq::<u8>::empty());
    assert(percent_encoded(s) =~= encoded_byte(byte));
}

/// Decoding undoes encoding.
pub proof fn lemma_decode_encode(bytes: Seq<u8>)
    ensures
        percent_decoded(percent_encoded(bytes)) == bytes,
    decreases bytes.len(),
{
    if bytes.len() > 0 {
        let head = seq![bytes[0]];
        let rest = bytes.skip(1);
        assert(bytes =~= head + rest);
        lemma_percent_encoded_concat(head, rest);
        lemma_encoded_byte_cases(bytes[0]);
        lemma_decode_encode(rest);
        let text = percent_encoded(bytes);
        assert(text == percent_encoded(head) + percent_encoded(rest));
        if is_unreserved(bytes[0]) {
            assert(text.skip(1) =~= percent_encoded(rest));
            assert(!starts_with_escape(text));
        } else {
            let b = bytes[0];
            assert(text.skip(3) =~= percent_encoded(rest));
            assert(text[0] == 0x25);
            assert(text[1] == upper_hex_digit(b as int / 16));
            assert(text[2] == upper_hex_digit(b as int % 16));
            assert(starts_with_escape(text));
            assert(hex_value(text[1]).unwrap() * 16 + hex_value(text[2]).unwrap() == b);
        }
        assert(percent_decoded(text) =~= bytes);
    }
}

/// `percent_encoding::percent_encode_byte`: the three ASCII characters `%XX`
/// of a byte, with upper-case hexadecimal digits.
#[verifier::external_body]
fn escape_of(byte: u8) -> (text: &'static str)
    ensures
        encode_utf8(text@) == escaped_byte(byte),
{
    percent_encoding::percent_encode_byte(byte)
}

/// Tells whether a byte is an unreserved character.
pub fn unreserved(byte: u8) -> (kept: bool)
    ensures
        kept == is_unreserved(byte),
{
    (0x41 <= byte && byte <= 0x5a) || (0x61 <= byte && byte <= 0x7a) || (0x30 <= byte && byte
        <= 0x39) || byte == 0x2d || byte == 0x2e || byte == 0x5f || byte == 0x7e
}

/// Appends the percent-encoding of `bytes` to `out`.
pub fn append_percent_encoded(out: &mut Vec<u8>, bytes: &[u8])
    ensures
        final(out)@ == old(out)@ + percent_encoded(bytes@),
        valid_utf8(old(out)@) ==> valid_utf8(final(out)@),
{
    proof {
        lemma_percent_encoded_ascii(bytes@);
        lemma_ascii_is_utf8(percent_encoded(bytes@));
        if valid_utf8(old(out)@) {
            valid_utf8_concat(old(out)@, percent_encoded(bytes@));
        }
    }
    let mut i: usize = 0;
    assert(bytes@.take(0) =~= Seq::<u8>::empty());
    while i < bytes.len()
        invariant
            i <= bytes.len(),
            out@ == old(out)@ + percent_encoded(bytes@.take(i as int)),
        decreases bytes.len() - i,
    {
        let byte = bytes[i];
        proof {
            assert(bytes@.take(i + 1).drop_last() =~= bytes@.take(i as int));
            assert(bytes@.take(i + 1).last() == byte);
        }
        if unreserved(byte) {
            out.push(byte);
        } else {
            let escape = escape_of(byte);
            append_bytes(out, escape.as_bytes());
        }
        i += 1;
        assert(out@ =~= old(out)@ + percent_encoded(bytes@.take(i as int)));
    }
    assert(bytes@.take(bytes@.len() as int) =~= bytes@);
}

/// The percent-encoding of a byte string.
pub fn percent_encode_bytes(bytes: &[u8]) -> (text: Vec<u8>)
    ensures
        text@ == percent_encoded(bytes@),
{
    let mut text: Vec<u8> = Vec::new();
    append_percent_encoded(&mut text, bytes);
    assert(text@ =~= percent_encoded(bytes@));
    text
}

/// The percent-encoding of the UTF-8 bytes of a string.
pub fn percent_encode(input: &str) -> (text: String)
    ensures
        encode_utf8(text@) == percent_encoded(encode_utf8(input@)),
{
    let bytes = percent_encode_bytes(input.as_bytes());
    proof {
        lemma_percent_encoded_ascii(encode_utf8(input@));
    }
    text_from_ascii(bytes)
}

/// The value of a hexadecimal digit of either case, if `digit` is one.
pub fn hex_digit_value(digit: u8) -> (value: Option<u8>)
    ensures
        value is Some <==> hex_value(digit) is Some,
        value matches Some(v) ==> hex_value(digit) == Some(v as int) && v < 16,
{
    if 0x30 <= digit && digit <= 0x39 {
        Some(digit - 0x30)
    } else if 0x41 <= digit && digit <= 0x46 {
        Some(digit - 0x41 + 10)
    } else if 0x61 <= digit && digit <= 0x66 {
        Some(digit - 0x61 + 10)
    } else {
        None
    }
}

/// The percent-decoding of a byte string.
pub fn percent_decode_bytes(text: &[u8]) -> (bytes: Vec<u8>)
    ensures
        bytes@ == percent_decoded(text@),
{
    let mut bytes: Vec<u8> = Vec::new();
    let mut i: usize = 0;
    assert(text@.skip(0) =~= text@);
    while i < text.len()
        invariant
            i <= text.len(),
            percent_decoded(text@) == bytes@ + percent_decoded(text@.skip(i as int)),
        decreases text.len() - i,
    {
        let ghost rest = text@.skip(i as int);
        let ghost before = bytes@;
        let mut width: usize = 1;
        let mut byte: u8 = text[i];
        if byte == 0x25 && text.len() - i >= 3 {
            let high = hex_digit_value(text[i + 1]);
            let low = hex_digit_value(text[i + 2]);
            if high.is_some() && low.is_some() {
                byte = high.unwrap() * 16 + low.unwrap();
                width = 3;
            }
        }
        proof {
            assert(rest.len() == text.len() - i);
            assert(rest[0] == text@[i as int]);
            if rest.len() >= 3 {
                assert(rest[1] == text@[i + 1]);
                assert(rest[2] == text@[i + 2]);
            }
            assert(rest.skip(width as int) =~= text@.skip(i + width));
            assert(percent_decoded(rest) == seq![byte] + percent_decoded(rest.skip(width as int)));
        }
        bytes.push(byte);
        i += width;
        assert(bytes@ + percent_decoded(text@.skip(i as int)) =~= before + percent_decoded(rest));
    }
    assert(percent_decoded(text@.skip(i as int)) =~= Seq::<u8>::empty());
    assert(bytes@ =~= percent_decoded(text@));
    bytes
}

/// The string that `input` is the percent-encoding of: the decoded bytes
/// read as UTF-8, or `None` where they are not well-formed UTF-8.
pub fn percent_decode(input: &str) -> (text: Option<String>)
    ensures
        text is Some <==> valid_utf8(percent_decoded(encode_utf8(input@))),
        text matches Some(s) ==> encode_utf8(s@) == percent_decoded(encode_utf8(input@)),
{
    text_from_bytes(percent_decode_bytes(input.as_bytes()))
}

/// Encoding a string and decoding the result gives the string back.
pub proof fn lemma_decode_encode_text(input: Seq<char>, encoded: Seq<char>, decoded: Seq<char>)
    requires
        encode_utf8(encoded) == percent_encoded(encode_utf8(input)),
        encode_utf8(decoded) == percent_decoded(encode_utf8(encoded)),
    ensures
        decoded == input,
{
    lemma_decode_encode(encode_utf8(input));
    crate::text::lemma_utf8_injective(decoded, input);
}

} // verus!
