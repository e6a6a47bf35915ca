use timed_post::digest::keyed_digest_text;
use timed_post::params::{compare_bytes, parameter_string, sort_pairs};
use timed_post::signer::{authorization_header, build_authorization_header, sign, Credential};

const UPDATE: &str = "https://api.twitter.com/1.1/statuses/update.json";

fn pairs(list: &[(&str, &str)]) -> Vec<(String, String)> {
    list.iter().map(|(k, v)| (k.to_string(), v.to_string())).collect()
}

fn credential(key: &str, secret: &str, token: &str, token_secret: &str) -> Credential {
    Credential {
        consumer_key: key.to_string(),
        consumer_secret: secret.to_string(),
        access_token: token.to_string(),
        access_token_secret: token_secret.to_string(),
    }
}

fn documented_credential() -> Credential {
    credential(
        "xvz1evFS4wEEPTGEFPHBog",
        "kAcSOqF21Fu85e7zjz7ZN2U4ZRhfV3WpwPAoE3Z7kBw",
        "370773112-GmHxMAgYyLbNEtIKZeRNFsMKPR9EyMZeS9weJAEb",
        "LswwdoUaIvS8ltyTt5jkRh4J50vUPVVHtR2YPi5kE",
    )
}

#[test]
fn digest_of_a_known_message() {
    assert_eq!(
        keyed_digest_text(b"Jefe", b"what do ya want for nothing?"),
        b"7/zfauXrL6LSdBbV8YTfnCWafHk=".to_vec()
    );
    assert_eq!(keyed_digest_text(b"", b""), b"+9sdGxiqbAgyS31ktx+3Y3BpDh0=".to_vec());
}

#[test]
fn parameters_are_sorted_by_key() {
    assert_eq!(parameter_string(&pairs(&[("b", "2"), ("a", "1")])), "a=1&b=2");
    assert_eq!(parameter_string(&pairs(&[("a", "1"), ("b", "2")])), "a=1&b=2");
}

#[test]
fn parameter_order_does_not_matter() {
    let forward = pairs(&[("z", "26"), ("m", "13"), ("a", "1"), ("m", "12"), ("A", "0")]);
    let mut backward = forward.clone();
    backward.reverse();
    let mut rotated = forward.clone();
    rotated.rotate_left(2);
    let expected = "A=0&a=1&m=12&m=13&z=26";
    assert_eq!(parameter_string(&forward), expected);
    assert_eq!(parameter_string(&backward), expected);
    assert_eq!(parameter_string(&rotated), expected);
}

#[test]
fn equal_keys_are_sorted_by_value() {
    assert_eq!(parameter_string(&pairs(&[("k", "b"), ("k", "a"), ("k", "")])), "k=&k=a&k=b");
    assert_eq!(parameter_string(&pairs(&[("k", "a"), ("k", "a")])), "k=a&k=a");
}

#[test]
fn parameters_are_sorted_as_encoded() {
    // "a b" is written a%20b, and '%' comes before '-' and before 'b'.
    assert_eq!(
        parameter_string(&pairs(&[("ab", "1"), ("a-", "2"), ("a b", "3"), ("a", "4")])),
        "a=4&a%20b=3&a-=2&ab=1"
    );
    assert_eq!(parameter_string(&pairs(&[("a b", "c*d"), ("a", "é")])), "a=%C3%A9&a%20b=c%2Ad");
}

#[test]
fn no_parameters_give_an_empty_string() {
    assert_eq!(parameter_string(&Vec::new()), "");
    assert_eq!(parameter_string(&pairs(&[("only", "one")])), "only=one");
}

#[test]
fn byte_strings_compare_lexicographically() {
    assert_eq!(compare_bytes(b"", b""), 0);
    assert_eq!(compare_bytes(b"", b"a"), -1);
    assert_eq!(compare_bytes(b"a", b""), 1);
    assert_eq!(compare_bytes(b"abc", b"abc"), 0);
    assert_eq!(compare_bytes(b"ab", b"abc"), -1);
    assert_eq!(compare_bytes(b"abd", b"abc"), 1);
    assert_eq!(compare_bytes(b"b", b"abc"), 1);
    assert_eq!(compare_bytes(&[0x7f], &[0x80]), -1);
}

#[test]
fn sorting_keeps_every_pair() {
    let given: Vec<(Vec<u8>, Vec<u8>)> = vec![
        (b"b".to_vec(), b"2".to_vec()),
        (b"a".to_vec(), b"9".to_vec()),
        (b"b".to_vec(), b"1".to_vec()),
        (b"a".to_vec(), b"9".to_vec()),
    ];
    let sorted = sort_pairs(given);
    assert_eq!(
        sorted,
        vec![
            (b"a".to_vec(), b"9".to_vec()),
            (b"a".to_vec(), b"9".to_vec()),
            (b"b".to_vec(), b"1".to_vec()),
            (b"b".to_vec(), b"2".to_vec()),
        ]
    );
}

#[test]
fn signs_the_documented_request() {
    let params = pairs(&[
        ("include_entities", "true"),
        ("status", "Hello Ladies + Gentlemen, a signed OAuth request!"),
        ("oauth_consumer_key", "xvz1evFS4wEEPTGEFPHBog"),
        ("oauth_nonce", "kYjzVBB8Y0ZFabxSWbWovY3uYSQ2pTgmZeNu2VS4cg"),
        ("oauth_signature_method", "HMAC-SHA1"),
        ("oauth_timestamp", "1318622958"),
        ("oauth_token", "370773112-GmHxMAgYyLbNEtIKZeRNFsMKPR9EyMZeS9weJAEb"),
        ("oauth_version", "1.0"),
    ]);
    assert_eq!(
        sign("POST", UPDATE, &documented_credential(), &params),
        "hCtSmYh+iHYCEqBWrE7C7hYmtUk="
    );
}

#[test]
fn signature_is_deterministic_and_28_characters_long() {
    let c = credential("ck", "cs", "at", "ats");
    let params = pairs(&[("b", "2"), ("a", "1")]);
    let first = sign("POST", UPDATE, &c, &params);
    let second = sign("POST", UPDATE, &c, &params);
    assert_eq!(first, second);
    assert_eq!(first, "LuNEY0WYIwUwt/eYp/WuSYHqcYE=");
    assert_eq!(first.len(), 28);
    assert_eq!(sign("POST", UPDATE, &c, &Vec::new()).len(), 28);
    assert_eq!(sign("", "", &credential("", "", "", ""), &Vec::new()).len(), 28);
}

#[test]
fn signature_does_not_depend_on_parameter_order() {
    let c = credential("ck", "cs", "at", "ats");
    assert_eq!(
        sign("POST", UPDATE, &c, &pairs(&[("a", "1"), ("b", "2")])),
        sign("POST", UPDATE, &c, &pairs(&[("b", "2"), ("a", "1")]))
    );
}

#[test]
fn secrets_and_endpoint_are_encoded_before_signing() {
    let c = credential("unused", "s ecret*", "unused", "t&k");
    assert_eq!(
        sign("GET", "http://example.com/a b", &c, &pairs(&[("a b", "c*d"), ("a", "é")])),
        "1sV2CLhGrvDOLidL/VH8N6dekMw="
    );
}

#[test]
fn header_of_the_documented_request() {
    let extra = pairs(&[
        ("include_entities", "true"),
        ("status", "Hello Ladies + Gentlemen, a signed OAuth request!"),
    ]);
    let header = authorization_header(
        UPDATE,
        &documented_credential(),
        &extra,
        "kYjzVBB8Y0ZFabxSWbWovY3uYSQ2pTgmZeNu2VS4cg",
        1318622958,
    );
    assert_eq!(
        header,
        "OAuth oauth_consumer_key=\"xvz1evFS4wEEPTGEFPHBog\", \
         oauth_nonce=\"kYjzVBB8Y0ZFabxSWbWovY3uYSQ2pTgmZeNu2VS4cg\", \
         oauth_signature=\"hCtSmYh%2BiHYCEqBWrE7C7hYmtUk%3D\", \
         oauth_signature_method=\"HMAC-SHA1\", oauth_timestamp=\"1318622958\", \
         oauth_token=\"370773112-GmHxMAgYyLbNEtIKZeRNFsMKPR9EyMZeS9weJAEb\", \
         oauth_version=\"1.0\""
    );
}

#[test]
fn header_values_are_encoded() {
    let c = credential("c k", "c&s", "a=t", "a t*s");
    let header = authorization_header(UPDATE, &c, &pairs(&[("status", "a*b c")]), "no nce", -5);
    assert_eq!(
        header,
        "OAuth oauth_consumer_key=\"c%20k\", oauth_nonce=\"no%20nce\", \
         oauth_signature=\"Niazfoj0G5VCoP5D2K6b4rYekZw%3D\", \
         oauth_signature_method=\"HMAC-SHA1\", oauth_timestamp=\"-5\", oauth_token=\"a%3Dt\", \
         oauth_version=\"1.0\""
    );
}

#[test]
fn header_is_the_same_for_the_same_nonce_and_time() {
    let c = credential("ck", "cs", "at", "ats");
    let extra = pairs(&[("status", "test")]);
    let first = authorization_header(UPDATE, &c, &extra, "n1", 1704110399);
    let second = authorization_header(UPDATE, &c, &extra, "n1", 1704110399);
    assert_eq!(first, second);
    assert_ne!(first, authorization_header(UPDATE, &c, &extra, "n2", 1704110399));
    assert_ne!(first, authorization_header(UPDATE, &c, &extra, "n1", 1704110400));
}

#[test]
fn header_made_now_carries_the_time_as_nonce() {
    let c = credential("ck", "cs", "at", "ats");
    let extra = pairs(&[("status", "test")]);
    let header = build_authorization_header(UPDATE, &c, &extra);
    let after = "oauth_timestamp=\"";
    let from = header.find(after).unwrap() + after.len();
    let digits: String = header[from..].chars().take_while(|c| c.is_ascii_digit()).collect();
    let timestamp: i64 = digits.parse().unwrap();
    assert!(timestamp > 1_600_000_000);
    assert_eq!(header, authorization_header(UPDATE, &c, &extra, &digits, timestamp));
}
