//! The request signer: the OAuth 1.0a signature of a request under
//! HMAC-SHA1, and the authorization header that carries it.

use vstd::prelude::*;
use vstd::utf8::*;
use vstd::string::StringExecFns;
use crate::clock::{now_millis, whole_seconds};
use crate::digest::{base64_encoded, hmac_sha1_digest, keyed_digest_text};
use crate::params::{
    lemma_parameter_text_order_free, param_bytes, parameter_bytes, parameter_text, Pair,
};
use crate::percent::{append_percent_encoded, percent_encoded};
use crate::text::{
    append_bytes, append_decimal, append_text, decimal_text, is_ascii_bytes,
    lemma_decimal_text_ascii, lemma_utf8_injective, text_from_ascii, text_from_utf8,
};

verus! {

/// The secrets and keys that authenticate every call.
#[derive(Clone, Debug, PartialEq, Eq)]
pub struct Credential {
    pub consumer_key: String,
    pub consumer_secret: String,
    pub access_token: String,
    pub access_token_secret: String,
}

/// The signature base string: the method, the encoded endpoint and the
/// encoded canonical parameter string, joined by `&`.
pub open spec fn base_string(method: Seq<u8>, endpoint: Seq<u8>, params: Seq<Pair>) -> Seq<u8> {
    method + seq![0x26u8] + percent_encoded(endpoint) + seq![0x26u8] + percent_encoded(
        parameter_text(params),
    )
}

/// The signing key: the encoded consumer secret and the encoded token
/// secret, joined by `&`.
pub open spec fn signing_key(consumer_secret: Seq<u8>, token_secret: Seq<u8>) -> Seq<u8> {
    percent_encoded(consumer_secret) + seq![0x26u8] + percent_encoded(token_secret)
}

/// The signature of a request: the base64 text of the HMAC-SHA1 code of the
/// base string under the signing key.
pub open spec fn signature_text(
    method: Seq<u8>,
    endpoint: Seq<u8>,
    consumer_secret: Seq<u8>,
    token_secret: Seq<u8>,
    params: Seq<Pair>,
) -> Seq<u8> {
    base64_encoded(
        hmac_sha1_digest(
            signing_key(consumer_secret, token_secret),
            base_string(method, endpoint, params),
        ),
    )
}

/// The six protocol parameters that every signed request carries besides
/// its own.
pub open spec fn oauth_pairs(
    consumer_key: Seq<u8>,
    nonce: Seq<u8>,
    timestamp: int,
    token: Seq<u8>,
) -> Seq<Pair> {
    seq![
        (encode_utf8("oauth_consumer_key"@), consumer_key),
        (encode_utf8("oauth_nonce"@), nonce),
        (encode_utf8("oauth_signature_method"@), encode_utf8("HMAC-SHA1"@)),
        (encode_utf8("oauth_timestamp"@), decimal_text(timestamp)),
        (encode_utf8("oauth_token"@), token),
        (encode_utf8("oauth_version"@), encode_utf8("1.0"@)),
    ]
}

/// The parameters that are signed: those of the request, then the protocol
/// parameters.
pub open spec fn signed_pairs(
    credential: Credential,
    extra: Seq<Pair>,
    nonce: Seq<u8>,
    timestamp: int,
) -> Seq<Pair> {
    extra + oauth_pairs(
        encode_utf8(credential.consumer_key@),
        nonce,
        timestamp,
        encode_utf8(credential.access_token@),
    )
}

/// The signature that the authorization header of a `POST` to `endpoint`
/// carries.
pub open spec fn header_signature(
    endpoint: Seq<u8>,
    credential: Credential,
    extra: Seq<Pair>,
    nonce: Seq<u8>,
    timestamp: int,
) -> Seq<u8> {
    signature_text(
        encode_utf8("POST"@),
        endpoint,
        encode_utf8(credential.consumer_secret@),
        encode_utf8(credential.access_token_secret@),
        signed_pairs(credential, extra, nonce, timestamp),
    )
}

/// The authorization header of a `POST` to `endpoint`: the seven protocol
/// values in alphabetical order of their names, each percent-encoded and in
/// double quotes.
pub open spec fn header_text(
    endpoint: Seq<u8>,
    credential: Credential,
    extra: Seq<Pair>,
    nonce: Seq<u8>,
    timestamp: int,
) -> Seq<u8> {
    encode_utf8("OAuth oauth_consumer_key=\""@) + percent_encoded(
        encode_utf8(credential.consumer_key@),
    ) + encode_utf8("\", oauth_nonce=\""@) + percent_encoded(nonce) + encode_utf8(
        "\", oauth_signature=\""@,
    ) + percent_encoded(header_signature(endpoint, credential, extra, nonce, timestamp))
        + encode_utf8("\", oauth_signature_method=\""@) + percent_encoded(
        encode_utf8("HMAC-SHA1"@),
    ) + encode_utf8("\", oauth_timestamp=\""@) + percent_encoded(decimal_text(timestamp))
        + encode_utf8("\", oauth_token=\""@) + percent_encoded(
        encode_utf8(credential.access_token@),
    ) + encode_utf8("\", oauth_version=\""@) + percent_encoded(encode_utf8("1.0"@))
        + encode_utf8("\""@)
}

/// Signing is deterministic: two signatures of the same method, endpoint,
/// secrets and parameters are the same text.
pub proof fn lemma_sign_deterministic(
    first: Seq<char>,
    second: Seq<char>,
    method: Seq<u8>,
    endpoint: Seq<u8>,
    consumer_secret: Seq<u8>,
    token_secret: Seq<u8>,
    params: Seq<Pair>,
)
    requires
        encode_utf8(first) == signature_text(
            method,
            endpoint,
            consumer_secret,
            token_secret,
            params,
        ),
        encode_utf8(second) == signature_text(
            method,
            endpoint,
            consumer_secret,
            token_secret,
            params,
        ),
    ensures
        first == second,
{
    lemma_utf8_injective(first, second);
}

/// The signature does not depend on the order in which the parameters are
/// given.
pub proof fn lemma_signature_order_free(
    method: Seq<u8>,
    endpoint: Seq<u8>,
    consumer_secret: Seq<u8>,
    token_secret: Seq<u8>,
    params: Seq<Pair>,
    rearranged: Seq<Pair>,
)
    requires
        params.to_multiset() == rearranged.to_multiset(),
    ensures
        signature_text(method, endpoint, consumer_secret, token_secret, params)
            == signature_text(method, endpoint, consumer_secret, token_secret, rearranged),
{
    lemma_parameter_text_order_free(params, rearranged);
}

/// Two authorization headers made for the same request with the same nonce
/// at the same time are the same text.
pub proof fn lemma_header_deterministic(
    first: Seq<char>,
    second: Seq<char>,
    endpoint: Seq<u8>,
    credential: Credential,
    extra: Seq<Pair>,
    nonce: Seq<u8>,
    timestamp: int,
)
    requires
        encode_utf8(first) == header_text(endpoint, credential, extra, nonce, timestamp),
        encode_utf8(second) == header_text(endpoint, credential, extra, nonce, timestamp),
    ensures
        first == second,
{
    lemma_utf8_injective(first, second);
}

/// The signature of a request as bytes.
pub fn signature_bytes(
    method: &str,
    endpoint: &str,
    credential: &Credential,
    params: &Vec<(String, String)>,
) -> (signature: Vec<u8>)
    ensures
        signature@ == signature_text(
            encode_utf8(method@),
            encode_utf8(endpoint@),
            encode_utf8(credential.consumer_secret@),
            encode_utf8(credential.access_token_secret@),
            param_bytes(params@),
        ),
        signature@.len() == 28,
        is_ascii_bytes(signature@),
{
    let mut key: Vec<u8> = Vec::new();
    append_percent_encoded(&mut key, credential.consumer_secret.as_str().as_bytes());
    key.push(0x26);
    append_percent_encoded(&mut key, credential.access_token_secret.as_str().as_bytes());
    assert(key@ =~= signing_key(
        encode_utf8(credential.consumer_secret@),
        encode_utf8(credential.access_token_secret@),
    ));

    let parameters = parameter_bytes(params);
    let mut base: Vec<u8> = Vec::new();
    append_bytes(&mut base, method.as_bytes());
    base.push(0x26);
    append_percent_encoded(&mut base, endpoint.as_bytes());
    base.push(0x26);
    append_percent_encoded(&mut base, parameters.as_slice());
    assert(base@ =~= base_string(
        encode_utf8(method@),
        encode_utf8(endpoint@),
        param_bytes(params@),
    ));

    keyed_digest_text(key.as_slice(), base.as_slice())
}

/// Signs a request: `method` and `endpoint` with its parameters, under the
/// consumer secret and the token secret of `credential`.
pub fn sign(
    method: &str,
    endpoint: &str,
    credential: &Credential,
    params: &Vec<(String, String)>,
) -> (signature: String)
    ensures
        encode_utf8(signature@) == signature_text(
            encode_utf8(method@),
            encode_utf8(endpoint@),
            encode_utf8(credential.consumer_secret@),
            encode_utf8(credential.access_token_secret@),
            param_bytes(params@),
        ),
        signature@.len() == 28,
{
    text_from_ascii(signature_bytes(method, endpoint, credential, params))
}

/// The parameters that are signed for a request with the parameters
/// `extra`.
fn all_params(
    credential: &Credential,
    extra: &Vec<(String, String)>,
    nonce: &str,
    timestamp: i64,
) -> (all: Vec<(String, String)>)
    ensures
        param_bytes(all@) == signed_pairs(
            *credential,
            param_bytes(extra@),
            encode_utf8(nonce@),
            timestamp as int,
        ),
{
    let mut all: Vec<(String, String)> = Vec::new();
    let mut i: usize = 0;
    while i < extra.len()
        invariant
            i <= extra.len(),
            param_bytes(all@) == param_bytes(extra@).take(i as int),
        decreases extra.len() - i,
    {
        let ghost before = param_bytes(all@);
        let key = extra[i].0.clone();
        let value = extra[i].1.clone();
        all.push((key, value));
        i += 1;
        proof {
            let given = param_bytes(extra@);
            assert(given[i - 1] == (
                encode_utf8(extra@[i - 1].0@),
                encode_utf8(extra@[i - 1].1@),
            ));
            assert(param_bytes(all@) =~= before.push(given[i - 1]));
            assert(given.take(i as int) =~= given.take(i - 1).push(given[i - 1]));
        }
    }
    assert(param_bytes(extra@).take(extra.len() as int) =~= param_bytes(extra@));
    let mut stamp: Vec<u8> = Vec::new();
    append_decimal(&mut stamp, timestamp);
    proof {
        lemma_decimal_text_ascii(timestamp as int);
        assert(stamp@ =~= decimal_text(timestamp as int));
    }
    let stamp_text = text_from_ascii(stamp);
    let ghost given = param_bytes(all@);
    all.push((String::from_str("oauth_consumer_key"), credential.consumer_key.clone()));
    all.push((String::from_str("oauth_nonce"), String::from_str(nonce)));
    all.push((String::from_str("oauth_signature_method"), String::from_str("HMAC-SHA1")));
    all.push((String::from_str("oauth_timestamp"), stamp_text));
    all.push((String::from_str("oauth_token"), credential.access_token.clone()));
    all.push((String::from_str("oauth_version"), String::from_str("1.0")));
    proof {
        let added = oauth_pairs(
            encode_utf8(credential.consumer_key@),
            encode_utf8(nonce@),
            timestamp as int,
            encode_utf8(credential.access_token@),
        );
        let n = given.len() as int;
        assert(param_bytes(all@).len() == n + 6);
        assert forall|j: int| 0 <= j < n + 6 implies param_bytes(all@)[j] == (given + added)[j] by {
            assert(param_bytes(all@)[j] == (encode_utf8(all@[j].0@), encode_utf8(all@[j].1@)));
            if j < n {
                assert(given[j] == (encode_utf8(all@[j].0@), encode_utf8(all@[j].1@)));
            }
        }
        assert(param_bytes(all@) =~= given + added);
    }
    all
}

/// The authorization header of a `POST` to `endpoint` with the parameters
/// `extra`, for a given nonce and a given time in seconds since the epoch.
pub fn authorization_header(
    endpoint: &str,
    credential: &Credential,
    extra: &Vec<(String, String)>,
    nonce: &str,
    timestamp: i64,
) -> (header: String)
    ensures
        encode_utf8(header@) == header_text(
            encode_utf8(endpoint@),
            *credential,
            param_bytes(extra@),
            encode_utf8(nonce@),
            timestamp as int,
        ),
{
    let all = all_params(credential, extra, nonce, timestamp);
    let signature = signature_bytes("POST", endpoint, credential, &all);
    let mut stamp: Vec<u8> = Vec::new();
    append_decimal(&mut stamp, timestamp);
    assert(stamp@ =~= decimal_text(timestamp as int));

    let mut header: Vec<u8> = Vec::new();
    assert(valid_utf8(header@));
    append_text(&mut header, "OAuth oauth_consumer_key=\"");
    append_percent_encoded(&mut header, credential.consumer_key.as_str().as_bytes());
    append_text(&mut header, "\", oauth_nonce=\"");
    append_percent_encoded(&mut header, nonce.as_bytes());
    append_text(&mut header, "\", oauth_signature=\"");
    append_percent_encoded(&mut header, signature.as_slice());
    append_text(&mut header, "\", oauth_signature_method=\"");
    append_percent_encoded(&mut header, "HMAC-SHA1".as_bytes());
    append_text(&mut header, "\", oauth_timestamp=\"");
    append_percent_encoded(&mut header, stamp.as_slice());
    append_text(&mut header, "\", oauth_token=\"");
    append_percent_encoded(&mut header, credential.access_token.as_str().as_bytes());
    append_text(&mut header, "\", oauth_version=\"");
    append_percent_encoded(&mut header, "1.0".as_bytes());
    append_text(&mut header, "\"");
    assert(header@ =~= header_text(
        encode_utf8(endpoint@),
        *credential,
        param_bytes(extra@),
        encode_utf8(nonce@),
        timestamp as int,
    ));
    text_from_utf8(header)
}

/// The authorization header of a `POST` to `endpoint` with the parameters
/// `extra`, made at the time that the machine's clock shows: its timestamp is
/// that time in seconds since the epoch, and its nonce the numeral of the
/// timestamp.
pub fn build_authorization_header(
    endpoint: &str,
    credential: &Credential,
    extra: &Vec<(String, String)>,
) -> (header: String)
    ensures
        exists|timestamp: i64|
            encode_utf8(header@) == #[trigger] header_text(
                encode_utf8(endpoint@),
                *credential,
                param_bytes(extra@),
                decimal_text(timestamp as int),
                timestamp as int,
            ),
{
    let timestamp = whole_seconds(now_millis());
    let mut digits: Vec<u8> = Vec::new();
    append_decimal(&mut digits, timestamp);
    proof {
        lemma_decimal_text_ascii(timestamp as int);
        assert(digits@ =~= decimal_text(timestamp as int));
    }
    let nonce = text_from_ascii(digits);
    authorization_header(endpoint, credential, extra, nonce.as_str(), timestamp)
}

} // verus!
