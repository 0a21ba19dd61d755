//! Session tokens, the request authenticator, and the conversions they
//! build on.

use routine_core::authenticator::validate_user;
use routine_core::convertations::{AsBase64, AsHash, FromBase64};
use routine_core::token::{check_jwt, create_jwt, AuthError, JWToken};

fn secret() -> Vec<u8> {
    b"a-process-wide-signing-key".to_vec()
}

#[test]
fn issued_token_validates_to_same_claims() {
    let key = secret();
    let token = create_jwt(JWToken::new(42, 1_700_000_000), &key);
    let claims = check_jwt(token.as_str(), &key).expect("token must validate");
    assert_eq!(claims.user_id, 42);
    assert_eq!(claims.iat, 1_700_000_000);
}

#[test]
fn issue_is_deterministic_and_iat_sensitive() {
    let key = secret();
    let a = create_jwt(JWToken::new(7, 1000), &key);
    let b = create_jwt(JWToken::new(7, 1000), &key);
    let c = create_jwt(JWToken::new(7, 1001), &key);
    assert_eq!(a, b);
    assert_ne!(a, c);
}

#[test]
fn negative_and_extreme_claims_round_trip() {
    let key = secret();
    for &(uid, iat) in &[(-1i32, -5i64), (i32::MIN, i64::MIN), (i32::MAX, i64::MAX), (0, 0)] {
        let token = create_jwt(JWToken::new(uid, iat), &key);
        let claims = check_jwt(token.as_str(), &key).expect("round trip");
        assert_eq!(claims.user_id, uid);
        assert_eq!(claims.iat, iat);
    }
}

#[test]
fn flipping_any_single_bit_invalidates_the_token() {
    let key = secret();
    let token = create_jwt(JWToken::new(9, 1_699_999_999), &key);
    let bytes = token.as_bytes();
    for i in 0..bytes.len() {
        for bit in 0..8 {
            let mut tampered = bytes.to_vec();
            tampered[i] ^= 1u8 << bit;
            match String::from_utf8(tampered) {
                Ok(s) => {
                    assert!(
                        check_jwt(s.as_str(), &key).is_err(),
                        "bit {} of byte {} must break the token",
                        bit,
                        i
                    );
                },
                Err(_) => {
                    // no longer a string at all: unusable as a token
                },
            }
        }
    }
}

#[test]
fn malformed_and_forged_tokens_fail_distinctly() {
    let key = secret();
    assert_eq!(check_jwt("not-a-token", &key), Err(AuthError::Malformed));
    assert_eq!(check_jwt("", &key), Err(AuthError::Malformed));
    let token = create_jwt(JWToken::new(5, 500), &key);
    // keep the 88-digit shape but change one digit
    let mut chars: Vec<char> = token.chars().collect();
    chars[87] = if chars[87] == '0' { '1' } else { '0' };
    let forged: String = chars.into_iter().collect();
    assert_eq!(check_jwt(forged.as_str(), &key), Err(AuthError::Invalid));
    // a different key must reject the signature
    let other = b"another-key".to_vec();
    assert_eq!(check_jwt(token.as_str(), &other), Err(AuthError::Invalid));
}

#[test]
fn the_signature_is_not_the_message_echoed_back() {
    // were the underlying tag computation the identity on its message,
    // the signature digits would be the hex of the claim digits' bytes
    let key = secret();
    let token = create_jwt(JWToken::new(1, 2), &key);
    let claims_part = &token[..24];
    let echoed: String = claims_part.bytes().map(|b| format!("{:02x}", b)).collect();
    assert_ne!(&token[24..], echoed.as_str());
}

#[test]
fn fresh_token_accepted_without_rotation() {
    let key = secret();
    let t0 = 1_700_000_000i64;
    let token = create_jwt(JWToken::new(3, t0), &key);
    let decision = validate_user(Some(token.as_str()), &key, t0 + 100).expect("accepted");
    assert_eq!(decision.subject_id, 3);
    assert!(decision.new_token.is_none());
}

#[test]
fn refresh_window_accepts_under_original_claims_and_rotates() {
    let key = secret();
    let t0 = 1_700_000_000i64;
    let now = t0 + 70_000; // between 18h and 24h
    let token = create_jwt(JWToken::new(3, t0), &key);
    let decision = validate_user(Some(token.as_str()), &key, now).expect("accepted");
    assert_eq!(decision.subject_id, 3);
    let rotated = decision.new_token.expect("a rotation must occur");
    let claims = check_jwt(rotated.as_str(), &key).expect("rotated token is genuine");
    assert_eq!(claims.user_id, 3);
    assert_eq!(claims.iat, now);
    assert!(claims.iat >= t0);
}

#[test]
fn expired_token_rejected_despite_valid_signature() {
    let key = secret();
    let t0 = 1_700_000_000i64;
    let token = create_jwt(JWToken::new(3, t0), &key);
    assert_eq!(
        validate_user(Some(token.as_str()), &key, t0 + 86_401).unwrap_err(),
        AuthError::Expired
    );
}

#[test]
fn missing_malformed_and_forged_requests_rejected() {
    let key = secret();
    assert_eq!(validate_user(None, &key, 0).unwrap_err(), AuthError::Missing);
    assert_eq!(validate_user(Some("xx"), &key, 0).unwrap_err(), AuthError::Malformed);
    let token = create_jwt(JWToken::new(3, 100), &key);
    let other = b"other".to_vec();
    assert_eq!(
        validate_user(Some(token.as_str()), &other, 200).unwrap_err(),
        AuthError::Invalid
    );
}

#[test]
fn hashing_matches_the_published_digest() {
    let empty = String::new().as_hash();
    assert_eq!(
        empty.as_str(),
        "e3b0c44298fc1c149afbf4c8996fb92427ae41e4649b934ca495991b7852b855"
    );
    let abc = String::from("abc").as_hash();
    assert_eq!(
        abc.as_str(),
        "ba7816bf8f01cfea414140de5dae2223b00361a396177a9cb410ff61f20015ad"
    );
}

#[test]
fn base64_encodes_and_round_trips() {
    let encoded = String::from("abc").as_base64();
    assert_eq!(encoded.as_str(), "YWJj");
    let mail = String::from("user@example.com").as_base64();
    assert_eq!(mail.as_str(), "dXNlckBleGFtcGxlLmNvbQ==");
    assert_eq!(mail.from_base64(), Some(String::from("user@example.com")));
    assert_eq!(String::from("!!!").from_base64(), None);
}
