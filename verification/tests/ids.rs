use base64::engine::general_purpose::URL_SAFE_NO_PAD;
use base64::Engine;
use relay_rs::ids::{valid_id, Verifier};
use relay_rs::protocol::RECONNECT_TOKEN_BYTES;

#[test]
fn valid_id_accepts_expected_shapes() {
    assert!(valid_id("abc123_-XYZ", 64));
    assert!(!valid_id("", 64));
    assert!(!valid_id("has space", 64));
    assert!(!valid_id("has/slash", 64));
    assert!(!valid_id(&"a".repeat(65), 64));
    assert!(valid_id(&"a".repeat(64), 64));
}

#[test]
fn verifier_round_trips_through_encoding() {
    let token = URL_SAFE_NO_PAD.encode([7u8; RECONNECT_TOKEN_BYTES]);
    let v1 = Verifier::from_token(&token).expect("structurally valid token");
    let encoded = v1.encode();
    let v2 = Verifier::from_encoded(&encoded).expect("round trip");
    assert!(v1.matches(&v2));
}

#[test]
fn verifier_rejects_malformed_tokens() {
    assert!(Verifier::from_token("").is_none());
    assert!(Verifier::from_token("not-base64!!!").is_none());
    assert!(Verifier::from_token(&URL_SAFE_NO_PAD.encode([1u8; 16])).is_none());
}

#[test]
fn different_tokens_yield_non_matching_verifiers() {
    let a = Verifier::from_token(&URL_SAFE_NO_PAD.encode([1u8; RECONNECT_TOKEN_BYTES])).unwrap();
    let b = Verifier::from_token(&URL_SAFE_NO_PAD.encode([2u8; RECONNECT_TOKEN_BYTES])).unwrap();
    assert!(!a.matches(&b));
    assert!(a != b);
}

#[test]
fn valid_id_rejects_what_is_not_ascii() {
    assert!(!valid_id("h\u{e9}llo", 64));
    assert!(!valid_id("\u{1f600}", 64));
    assert!(valid_id("-", 1));
    assert!(valid_id("_", 1));
    assert!(!valid_id("a", 0));
}

// The digest of 32 zero bytes is known: SHA-256 of them starts with 66687aad.
#[test]
fn verifier_is_the_sha256_digest_of_the_raw_token() {
    let zeros = [0u8; RECONNECT_TOKEN_BYTES];
    let v = Verifier::from_raw_bytes(&zeros).unwrap();
    let digest = URL_SAFE_NO_PAD.decode(v.encode()).unwrap();
    assert_eq!(digest.len(), 32);
    assert_eq!(digest[0..4], [0x66, 0x68, 0x7a, 0xad]);
    assert_eq!(digest[28..32], [0x0d, 0x5f, 0x29, 0x25]);
    assert!(v.matches(&Verifier::from_token(&URL_SAFE_NO_PAD.encode(zeros)).unwrap()));
    assert!(Verifier::from_raw_bytes(&zeros[1..]).is_none());
}

#[test]
fn verifier_is_persisted_as_unpadded_url_safe_base64() {
    let mut raw = [0u8; 32];
    raw[0] = 0xfb;
    raw[1] = 0xff;
    let v = Verifier::from_digest(&raw).unwrap();
    let text = format!("-_8A{}", "A".repeat(39));
    assert_eq!(v.encode(), text);
    assert!(Verifier::from_encoded(&text).unwrap().matches(&v));
    assert!(Verifier::from_encoded("-_8A").is_none());
    assert!(Verifier::from_encoded("!").is_none());
    assert!(Verifier::from_digest(&raw[..31]).is_none());
}

#[test]
fn token_with_padding_is_rejected() {
    let token = URL_SAFE_NO_PAD.encode([3u8; RECONNECT_TOKEN_BYTES]);
    assert_eq!(token.len(), 43);
    let padded = format!("{token}=");
    assert!(Verifier::from_token(&padded).is_none());
    let spaced = format!("{} ", &token[..42]);
    assert_eq!(spaced.len(), 43);
    assert!(Verifier::from_token(&spaced).is_none());
}

#[test]
fn only_the_encoded_form_of_a_verifier_is_read() {
    let v = Verifier::from_digest(&[9u8; 32]).unwrap();
    let text = v.encode();
    assert_eq!(text.len(), 43);
    assert_eq!(Verifier::from_encoded(&text).unwrap().encode(), text);
    assert!(Verifier::from_encoded(&format!("{text}=")).is_none());
    // The last character carries two bits that stand for nothing: they are zero.
    let zeros = "A".repeat(43);
    assert_eq!(Verifier::from_encoded(&zeros).unwrap().encode(), zeros);
    assert!(Verifier::from_encoded(&format!("{}B", "A".repeat(42))).is_none());
}
