use timed_post::client::{
    create_request, decode_identifier, delete_request, identifier_from, reply_request,
    TransportError,
};
use timed_post::signer::{authorization_header, Credential};

const UPDATE: &str = "https://api.twitter.com/1.1/statuses/update.json";
const FORM: &str = "application/x-www-form-urlencoded";

fn credential() -> Credential {
    Credential {
        consumer_key: "ck".to_string(),
        consumer_secret: "cs".to_string(),
        access_token: "at".to_string(),
        access_token_secret: "ats".to_string(),
    }
}

#[test]
fn creation_posts_the_encoded_status() {
    let request = create_request("test", &credential(), "n1", 1704110399);
    assert_eq!(request.url, UPDATE);
    assert_eq!(request.content_type, Some(FORM.to_string()));
    assert_eq!(request.body, "status=test");
    assert_eq!(
        request.authorization,
        "OAuth oauth_consumer_key=\"ck\", oauth_nonce=\"n1\", \
         oauth_signature=\"%2FnlCEv3Eh6OUmZhKcz73nP4lk9g%3D\", \
         oauth_signature_method=\"HMAC-SHA1\", oauth_timestamp=\"1704110399\", \
         oauth_token=\"at\", oauth_version=\"1.0\""
    );
}

#[test]
fn creation_encodes_the_message_in_the_body() {
    let request = create_request("a*b c&d=é", &credential(), "n", 1);
    assert_eq!(request.body, "status=a%2Ab%20c%26d%3D%C3%A9");
    let params = vec![("status".to_string(), "a*b c&d=é".to_string())];
    assert_eq!(
        request.authorization,
        authorization_header(UPDATE, &credential(), &params, "n", 1)
    );
}

#[test]
fn deletion_names_the_identifier_in_the_path() {
    let request = delete_request(1741791373578731520, &credential(), "n2", 1704110399);
    assert_eq!(
        request.url,
        "https://api.twitter.com/1.1/statuses/destroy/1741791373578731520.json"
    );
    assert_eq!(request.content_type, None);
    assert_eq!(request.body, "");
    assert_eq!(
        request.authorization,
        "OAuth oauth_consumer_key=\"ck\", oauth_nonce=\"n2\", \
         oauth_signature=\"CC5LnJaq5Yw7HT2RAFSGbTAV8NY%3D\", \
         oauth_signature_method=\"HMAC-SHA1\", oauth_timestamp=\"1704110399\", \
         oauth_token=\"at\", oauth_version=\"1.0\""
    );
}

#[test]
fn deletion_of_a_negative_identifier_spells_its_sign() {
    let request = delete_request(-42, &credential(), "n", 1);
    assert_eq!(request.url, "https://api.twitter.com/1.1/statuses/destroy/-42.json");
    let least = delete_request(i64::MIN, &credential(), "n", 1);
    assert_eq!(
        least.url,
        "https://api.twitter.com/1.1/statuses/destroy/-9223372036854775808.json"
    );
    let zero = delete_request(0, &credential(), "n", 1);
    assert_eq!(zero.url, "https://api.twitter.com/1.1/statuses/destroy/0.json");
}

#[test]
fn reply_names_the_post_it_answers() {
    let request =
        reply_request(1741791378133745669, "2024-01-01 12:00:00.123", &credential(), "n4", 1704110400);
    assert_eq!(request.url, UPDATE);
    assert_eq!(request.content_type, Some(FORM.to_string()));
    assert_eq!(
        request.body,
        "status=2024-01-01%2012%3A00%3A00.123&in_reply_to_status_id=1741791378133745669"
    );
    assert_eq!(
        request.authorization,
        "OAuth oauth_consumer_key=\"ck\", oauth_nonce=\"n4\", \
         oauth_signature=\"tHFfXgc5lnOV7QQXxE60xXNPDXw%3D\", \
         oauth_signature_method=\"HMAC-SHA1\", oauth_timestamp=\"1704110400\", \
         oauth_token=\"at\", oauth_version=\"1.0\""
    );
}

#[test]
fn reply_to_a_negative_identifier_encodes_its_sign() {
    let request = reply_request(-7, "x", &credential(), "n", 1);
    assert_eq!(request.body, "status=x&in_reply_to_status_id=-7");
}

#[test]
fn decodes_the_identifier_of_a_response() {
    assert_eq!(decode_identifier(b"{\"id\": 1541815603606036480}"), Ok(1541815603606036480));
    assert_eq!(
        decode_identifier(b"{\"created_at\":\"now\",\"id\":7,\"id_str\":\"7\",\"user\":{\"id\":9}}"),
        Ok(7)
    );
    assert_eq!(decode_identifier(b"{\"id\":-3}"), Ok(-3));
    assert_eq!(decode_identifier(b" {\"id\":9223372036854775807} "), Ok(i64::MAX));
}

#[test]
fn a_response_without_an_integer_identifier_is_undecodable() {
    let undecodable: [&[u8]; 10] = [
        b"",
        b"not json",
        b"{",
        b"{}",
        b"[1]",
        b"7",
        b"{\"id\":\"7\"}",
        b"{\"id\":7.5}",
        b"{\"id\":9223372036854775808}",
        b"{\"id\":7} trailing",
    ];
    for body in undecodable {
        assert_eq!(decode_identifier(body), Err(TransportError::UndecodableBody));
    }
    assert_eq!(decode_identifier(b"{\"ID\":7}"), Err(TransportError::UndecodableBody));
}

#[test]
fn the_member_decides_the_identifier() {
    assert_eq!(identifier_from(Some(5)), Ok(5));
    assert_eq!(identifier_from(None), Err(TransportError::UndecodableBody));
}
