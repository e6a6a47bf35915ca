use timed_post::percent::{
    hex_digit_value, percent_decode, percent_decode_bytes, percent_encode, percent_encode_bytes,
    unreserved,
};

#[test]
fn unreserved_characters_are_kept() {
    let kept = "ABCDEFGHIJKLMNOPQRSTUVWXYZabcdefghijklmnopqrstuvwxyz0123456789-._~";
    assert_eq!(percent_encode(kept), kept);
    for byte in kept.bytes() {
        assert!(unreserved(byte));
    }
}

#[test]
fn every_other_byte_is_encoded() {
    for byte in 0u8..=255 {
        let encoded = percent_encode_bytes(&[byte]);
        if unreserved(byte) {
            assert_eq!(encoded, vec![byte]);
        } else {
            assert_eq!(encoded, format!("%{:02X}", byte).into_bytes());
        }
    }
}

#[test]
fn star_space_ampersand_and_equals_are_encoded() {
    assert_eq!(percent_encode("*"), "%2A");
    assert_eq!(percent_encode(" "), "%20");
    assert_eq!(percent_encode("&"), "%26");
    assert_eq!(percent_encode("="), "%3D");
    assert_eq!(percent_encode(" &="), "%20%26%3D");
    assert!(!unreserved(b'*'));
}

#[test]
fn encodes_a_sentence() {
    assert_eq!(
        percent_encode("Hello Ladies + Gentlemen, a signed OAuth request!"),
        "Hello%20Ladies%20%2B%20Gentlemen%2C%20a%20signed%20OAuth%20request%21"
    );
}

#[test]
fn encodes_the_bytes_of_other_scripts() {
    assert_eq!(percent_encode("é"), "%C3%A9");
    assert_eq!(percent_encode("日本"), "%E6%97%A5%E6%9C%AC");
}

#[test]
fn encodes_the_empty_string() {
    assert_eq!(percent_encode(""), "");
    assert_eq!(percent_decode(""), Some(String::new()));
}

#[test]
fn decoding_recovers_the_text() {
    let samples =
        ["", "plain", "a b", "100% sure", "%41", "k=v&x=y*z", "é日本", "~_.-", "line\nbreak\t\u{0}"];
    for sample in samples {
        let encoded = percent_encode(sample);
        assert_eq!(percent_decode(&encoded), Some(sample.to_string()));
    }
}

#[test]
fn decoding_recovers_every_byte() {
    let all: Vec<u8> = (0u8..=255).collect();
    assert_eq!(percent_decode_bytes(&percent_encode_bytes(&all)), all);
}

#[test]
fn decodes_digits_of_either_case() {
    assert_eq!(percent_decode("%2a%2A%c3%A9"), Some("**é".to_string()));
    assert_eq!(hex_digit_value(b'a'), Some(10));
    assert_eq!(hex_digit_value(b'F'), Some(15));
    assert_eq!(hex_digit_value(b'7'), Some(7));
    assert_eq!(hex_digit_value(b'g'), None);
    assert_eq!(hex_digit_value(b'/'), None);
}

#[test]
fn leaves_a_percent_sign_without_two_digits() {
    assert_eq!(percent_decode("%"), Some("%".to_string()));
    assert_eq!(percent_decode("%4"), Some("%4".to_string()));
    assert_eq!(percent_decode("%zz"), Some("%zz".to_string()));
    assert_eq!(percent_decode("%%41"), Some("%A".to_string()));
    assert_eq!(percent_decode("50%4x"), Some("50%4x".to_string()));
}

#[test]
fn decoding_to_malformed_text_gives_nothing() {
    assert_eq!(percent_decode("%FF"), None);
    assert_eq!(percent_decode("%C3"), None);
    assert_eq!(percent_decode_bytes(b"%FF"), vec![0xff]);
}
