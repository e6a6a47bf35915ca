//! The posting client: the three signed requests, and the identifier that
//! the response to a creation holds. Sending a request is left to the
//! caller.

use vstd::prelude::*;
use vstd::utf8::*;
use vstd::string::StringExecFns;
use crate::params::{Pair, param_bytes};
use crate::percent::{append_percent_encoded, percent_encoded};
use crate::signer::{authorization_header, header_text, Credential};
use crate::text::{
    append_decimal, append_text, decimal_text, lemma_ascii_is_utf8, lemma_decimal_text_ascii,
    text_from_ascii, text_from_utf8,
};

verus! {

/// A signed `POST`, ready to be sent.
#[derive(Clone, Debug, PartialEq, Eq)]
pub struct Request {
    /// Where the request goes.
    pub url: String,
    /// The value of the `Authorization` header.
    pub authorization: String,
    /// The value of the `Content-Type` header, where the request has one.
    pub content_type: Option<String>,
    /// The body; empty where the request has none.
    pub body: String,
}

/// What a request holds, as bytes.
pub struct RequestText {
    pub url: Seq<u8>,
    pub authorization: Seq<u8>,
    pub content_type: Option<Seq<u8>>,
    pub body: Seq<u8>,
}

impl View for Request {
    type V = RequestText;

    open spec fn view(&self) -> RequestText {
        RequestText {
            url: encode_utf8(self.url@),
            authorization: encode_utf8(self.authorization@),
            content_type: match self.content_type {
                Some(kind) => Some(encode_utf8(kind@)),
                None => None,
            },
            body: encode_utf8(self.body@),
        }
    }
}

/// Why a call to the remote service failed.
#[derive(Clone, Copy, Debug, PartialEq, Eq, Structural)]
pub enum TransportError {
    /// The network call failed or timed out.
    CallFailed,
    /// The response does not hold what was expected.
    UndecodableBody,
}

/// The endpoint that creates a post.
pub open spec fn update_endpoint() -> Seq<u8> {
    encode_utf8("https://api.twitter.com/1.1/statuses/update.json"@)
}

/// The endpoint that deletes the post with the given identifier.
pub open spec fn destroy_endpoint(identifier: int) -> Seq<u8> {
    encode_utf8("https://api.twitter.com/1.1/statuses/destroy/"@) + decimal_text(identifier)
        + encode_utf8(".json"@)
}

/// The content type of a request with a body.
pub open spec fn form_content_type() -> Seq<u8> {
    encode_utf8("application/x-www-form-urlencoded"@)
}

/// The parameters of a creation.
pub open spec fn create_pairs(message: Seq<u8>) -> Seq<Pair> {
    seq![(encode_utf8("status"@), message)]
}

/// The parameters of a reply.
pub open spec fn reply_pairs(identifier: int, message: Seq<u8>) -> Seq<Pair> {
    seq![
        (encode_utf8("status"@), message),
        (encode_utf8("in_reply_to_status_id"@), decimal_text(identifier)),
    ]
}

/// The request that creates a post with the text `message`.
pub open spec fn create_request_text(
    message: Seq<u8>,
    credential: Credential,
    nonce: Seq<u8>,
    timestamp: int,
) -> RequestText {
    RequestText {
        url: update_endpoint(),
        authorization: header_text(
            update_endpoint(),
            credential,
            create_pairs(message),
            nonce,
            timestamp,
        ),
        content_type: Some(form_content_type()),
        body: encode_utf8("status="@) + percent_encoded(message),
    }
}

/// The request that deletes the post with the given identifier.
pub open spec fn delete_request_text(
    identifier: int,
    credential: Credential,
    nonce: Seq<u8>,
    timestamp: int,
) -> RequestText {
    RequestText {
        url: destroy_endpoint(identifier),
        authorization: header_text(
            destroy_endpoint(identifier),
            credential,
            Seq::empty(),
            nonce,
            timestamp,
        ),
        content_type: None,
        body: Seq::empty(),
    }
}

/// The request that answers the post with the given identifier with the
/// text `message`.
pub open spec fn reply_request_text(
    identifier: int,
    message: Seq<u8>,
    credential: Credential,
    nonce: Seq<u8>,
    timestamp: int,
) -> RequestText {
    RequestText {
        url: update_endpoint(),
        authorization: header_text(
            update_endpoint(),
            credential,
            reply_pairs(identifier, message),
            nonce,
            timestamp,
        ),
        content_type: Some(form_content_type()),
        body: encode_utf8("status="@) + percent_encoded(message) + encode_utf8(
            "&in_reply_to_status_id="@,
        ) + percent_encoded(decimal_text(identifier)),
    }
}

/// The decimal numeral of an identifier.
fn identifier_text(identifier: i64) -> (text: String)
    ensures
        encode_utf8(text@) == decimal_text(identifier as int),
{
    let mut digits: Vec<u8> = Vec::new();
    append_decimal(&mut digits, identifier);
    proof {
        lemma_decimal_text_ascii(identifier as int);
        assert(digits@ =~= decimal_text(identifier as int));
    }
    text_from_ascii(digits)
}

/// Builds the signed request that creates a post.
pub fn create_request(
    message: &str,
    credential: &Credential,
    nonce: &str,
    timestamp: i64,
) -> (request: Request)
    ensures
        request@ == create_request_text(
            encode_utf8(message@),
            *credential,
            encode_utf8(nonce@),
            timestamp as int,
        ),
{
    let endpoint = "https://api.twitter.com/1.1/statuses/update.json";
    let mut params: Vec<(String, String)> = Vec::new();
    params.push((String::from_str("status"), String::from_str(message)));
    assert(param_bytes(params@) =~= create_pairs(encode_utf8(message@)));
    let authorization = authorization_header(endpoint, credential, &params, nonce, timestamp);
    let mut body: Vec<u8> = Vec::new();
    assert(valid_utf8(body@));
    append_text(&mut body, "status=");
    append_percent_encoded(&mut body, message.as_bytes());
    assert(body@ =~= encode_utf8("status="@) + percent_encoded(encode_utf8(message@)));
    Request {
        url: String::from_str(endpoint),
        authorization,
        content_type: Some(String::from_str("application/x-www-form-urlencoded")),
        body: text_from_utf8(body),
    }
}

/// Builds the signed request that deletes a post.
pub fn delete_request(
    identifier: i64,
    credential: &Credential,
    nonce: &str,
    timestamp: i64,
) -> (request: Request)
    ensures
        request@ == delete_request_text(
            identifier as int,
            *credential,
            encode_utf8(nonce@),
            timestamp as int,
        ),
{
    let mut endpoint: Vec<u8> = Vec::new();
    assert(valid_utf8(endpoint@));
    append_text(&mut endpoint, "https://api.twitter.com/1.1/statuses/destroy/");
    let ghost head = endpoint@;
    append_decimal(&mut endpoint, identifier);
    proof {
        lemma_decimal_text_ascii(identifier as int);
        lemma_ascii_is_utf8(decimal_text(identifier as int));
        valid_utf8_concat(head, decimal_text(identifier as int));
    }
    append_text(&mut endpoint, ".json");
    assert(endpoint@ =~= destroy_endpoint(identifier as int));
    let url = text_from_utf8(endpoint);
    let params: Vec<(String, String)> = Vec::new();
    assert(param_bytes(params@) =~= Seq::<Pair>::empty());
    let authorization = authorization_header(
        url.as_str(),
        credential,
        &params,
        nonce,
        timestamp,
    );
    let body = String::new();
    proof {
        assert(encode_utf8(body@) =~= Seq::<u8>::empty()) by {
            reveal_with_fuel(encode_utf8, 1);
        }
    }
    Request { url, authorization, content_type: None, body }
}

/// Builds the signed request that answers a post.
pub fn reply_request(
    identifier: i64,
    message: &str,
    credential: &Credential,
    nonce: &str,
    timestamp: i64,
) -> (request: Request)
    ensures
        request@ == reply_request_text(
            identifier as int,
            encode_utf8(message@),
            *credential,
            encode_utf8(nonce@),
            timestamp as int,
        ),
{
    let endpoint = "https://api.twitter.com/1.1/statuses/update.json";
    let target = identifier_text(identifier);
    let mut body: Vec<u8> = Vec::new();
    assert(valid_utf8(body@));
    append_text(&mut body, "status=");
    append_percent_encoded(&mut body, message.as_bytes());
    append_text(&mut body, "&in_reply_to_status_id=");
    append_percent_encoded(&mut body, target.as_str().as_bytes());
    assert(body@ =~= encode_utf8("status="@) + percent_encoded(encode_utf8(message@))
        + encode_utf8("&in_reply_to_status_id="@) + percent_encoded(
        decimal_text(identifier as int),
    ));
    let mut params: Vec<(String, String)> = Vec::new();
    params.push((String::from_str("status"), String::from_str(message)));
    params.push((String::from_str("in_reply_to_status_id"), target));
    assert(param_bytes(params@) =~= reply_pairs(identifier as int, encode_utf8(message@)));
    let authorization = authorization_header(endpoint, credential, &params, nonce, timestamp);
    Request {
        url: String::from_str(endpoint),
        authorization,
        content_type: Some(String::from_str("application/x-www-form-urlencoded")),
        body: text_from_utf8(body),
    }
}

/// The integer that a JSON document holds under a name: `None` where the
/// bytes are no JSON document, the document is no object, the object has no
/// such member, or the member is no integer of 64 bits.
pub uninterp spec fn json_integer_member(document: Seq<u8>, name: Seq<char>) -> Option<i64>;

/// `serde_json::from_slice` into a `serde_json::Value`, then `Value::get`
/// and `Value::as_i64`: the integer member of a JSON object.
#[verifier::external_body]
fn integer_member(document: &[u8], name: &str) -> (member: Option<i64>)
    ensures
        member == json_integer_member(document@, name@),
{
    let value: serde_json::Value = serde_json::from_slice(document).ok()?;
    value.get(name)?.as_i64()
}

/// The identifier of a created post, given the member `id` of the response.
pub open spec fn identifier_of(member: Option<i64>) -> Result<i64, TransportError> {
    match member {
        Some(identifier) => Ok(identifier),
        None => Err(TransportError::UndecodableBody),
    }
}

/// The identifier of a created post, given the member `id` of the response.
pub fn identifier_from(member: Option<i64>) -> (identifier: Result<i64, TransportError>)
    ensures
        identifier == identifier_of(member),
{
    match member {
        Some(identifier) => Ok(identifier),
        None => Err(TransportError::UndecodableBody),
    }
}

/// Decodes the response to a creation: the integer under `id`.
pub fn decode_identifier(body: &[u8]) -> (identifier: Result<i64, TransportError>)
    ensures
        identifier == identifier_of(json_integer_member(body@, "id"@)),
{
    identifier_from(integer_member(body, "id"))
}

} // verus!
