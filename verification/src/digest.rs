//! The keyed digest and its textual form: HMAC-SHA1 and standard base64.

use vstd::prelude::*;
use crate::text::is_ascii_bytes;

verus! {

/// The HMAC-SHA1 message authentication code of `message` under `key`.
pub uninterp spec fn hmac_sha1_digest(key: Seq<u8>, message: Seq<u8>) -> Seq<u8>;

/// The character of the standard base64 alphabet for a value below 64.
pub open spec fn base64_symbol(value: int) -> u8 {
    if value < 26 {
        (0x41 + value) as u8
    } else if value < 52 {
        (0x61 + value - 26) as u8
    } else if value < 62 {
        (0x30 + value - 52) as u8
    } else if value == 62 {
        0x2bu8
    } else {
        0x2fu8
    }
}

/// The four characters that spell the 24 bits of three bytes, six bits each.
pub open spec fn base64_group(first: int, second: int, third: int) -> Seq<u8> {
    seq![
        base64_symbol(first / 4),
        base64_symbol(first % 4 * 16 + second / 16),
        base64_symbol(second % 16 * 4 + third / 64),
        base64_symbol(third % 64),
    ]
}

/// The standard base64 encoding with `=` padding: each group of three bytes
/// gives four characters; a last group of one or two bytes is filled up with
/// zero bits, and `=` stands in place of the characters that hold none of
/// its bits.
pub open spec fn base64_encoded(data: Seq<u8>) -> Seq<u8>
    decreases data.len(),
{
    if data.len() == 0 {
        Seq::empty()
    } else if data.len() == 1 {
        base64_group(data[0] as int, 0, 0).take(2) + seq![0x3du8, 0x3du8]
    } else if data.len() == 2 {
        base64_group(data[0] as int, data[1] as int, 0).take(3) + seq![0x3du8]
    } else {
        base64_group(data[0] as int, data[1] as int, data[2] as int) + base64_encoded(
            data.skip(3),
        )
    }
}

/// The length of the base64 encoding of `len` bytes.
pub open spec fn base64_length(len: nat) -> nat {
    4 * ((len + 2) / 3)
}

/// A base64 encoding has four characters for every three bytes begun, all of
/// them ASCII.
pub proof fn lemma_base64_encoded_shape(data: Seq<u8>)
    ensures
        base64_encoded(data).len() == base64_length(data.len()),
        is_ascii_bytes(base64_encoded(data)),
    decreases data.len(),
{
    if data.len() >= 3 {
        lemma_base64_encoded_shape(data.skip(3));
        let head = base64_group(data[0] as int, data[1] as int, data[2] as int);
        assert(is_ascii_bytes(head));
        crate::text::lemma_ascii_concat(head, base64_encoded(data.skip(3)));
    }
}

/// `hmac_sha1::hmac_sha1`: the 20-byte HMAC-SHA1 code of `message` under
/// `key`. Keys of any length are accepted.
#[verifier::external_body]
fn message_code(key: &[u8], message: &[u8]) -> (code: [u8; 20])
    ensures
        code@ == hmac_sha1_digest(key@, message@),
{
    hmac_sha1::hmac_sha1(key, message)
}

/// `base64::encode`: the standard alphabet with padding. The call fails
/// where the length of the encoding does not fit in `usize`.
#[verifier::external_body]
fn base64_encode(data: &[u8]) -> (text: Vec<u8>)
    requires
        base64_length(data@.len()) <= usize::MAX,
    ensures
        text@ == base64_encoded(data@),
{
    base64::encode(data).into_bytes()
}

/// The base64 text of the HMAC-SHA1 code of `message` under `key`: 28
/// ASCII characters.
pub fn keyed_digest_text(key: &[u8], message: &[u8]) -> (text: Vec<u8>)
    ensures
        text@ == base64_encoded(hmac_sha1_digest(key@, message@)),
        text@.len() == 28,
        is_ascii_bytes(text@),
{
    let code = message_code(key, message);
    proof {
        lemma_base64_encoded_shape(code@);
    }
    base64_encode(code.as_slice())
}

} // verus!
