use aes_gcm::aead::generic_array::typenum::{U12, U16};
use aes_gcm::aead::generic_array::GenericArray;
use aes_gcm::aead::Aead;
use aes_gcm::aes::Aes256;
use aes_gcm::{AesGcm, KeyInit};
use base64::engine::general_purpose::STANDARD as B64;
use base64::engine::general_purpose::URL_SAFE_NO_PAD as B64URL;
use base64::Engine;

use dsw::factory::{
    decrypt_v2, identity_from_attempts, jwt_payload, timestamp_in_range, DecryptError, Identity,
    JwtClaims, JwtError, MAX_TIMESTAMP, MIN_TIMESTAMP,
};

const KEY: [u8; 32] = [7u8; 32];

fn jwt_for(email: &str, sub: &str, exp: i64) -> String {
    let header = B64URL.encode(br#"{"alg":"none","typ":"JWT"}"#);
    let claims = format!(r#"{{"email":"{email}","sub":"{sub}","exp":{exp}}}"#);
    let payload = B64URL.encode(claims.as_bytes());
    let sig = B64URL.encode(b"sig");
    format!("{header}.{payload}.{sig}")
}

fn auth_json(jwt: &str) -> String {
    format!(r#"{{"access_token":"{jwt}","refresh_token":"rt_test"}}"#)
}

/// The texts of `auth.v2.key` and `auth.v2.file` of a bundle sealed with a
/// 12-byte IV.
fn synthetic_bundle(email: &str, exp: i64) -> (String, String) {
    let body = auth_json(&jwt_for(email, "user_test", exp));
    let iv = [3u8; 12];
    let cipher = AesGcm::<Aes256, U12>::new_from_slice(&KEY).unwrap();
    let sealed = cipher
        .encrypt(GenericArray::from_slice(&iv), body.as_bytes())
        .unwrap();
    let (ct, tag) = sealed.split_at(sealed.len() - 16);
    let file = format!("{}:{}:{}", B64.encode(iv), B64.encode(tag), B64.encode(ct));
    (B64.encode(KEY), file)
}

/// Like `synthetic_bundle`, with a 16-byte IV.
fn synthetic_bundle_16iv(email: &str, exp: i64) -> (String, String) {
    let body = auth_json(&jwt_for(email, "u", exp));
    let iv = [9u8; 16];
    let cipher = AesGcm::<Aes256, U16>::new_from_slice(&KEY).unwrap();
    let sealed = cipher
        .encrypt(GenericArray::from_slice(&iv), body.as_bytes())
        .unwrap();
    let (ct, tag) = sealed.split_at(sealed.len() - 16);
    let file = format!("{}:{}:{}", B64.encode(iv), B64.encode(tag), B64.encode(ct));
    (B64.encode(KEY), file)
}

fn field<'a>(v: &'a serde_json::Value, k: &str) -> Option<&'a serde_json::Value> {
    v.as_object().and_then(|o| o.get(k))
}

/// The identity carried by an auth payload's access token.
fn identity_from_payload(payload_json: &str) -> Option<Identity> {
    let payload: serde_json::Value = serde_json::from_str(payload_json).ok()?;
    let token = field(&payload, "access_token")?.as_str()?;
    let bytes = jwt_payload(token).ok()?;
    let claims: serde_json::Value = serde_json::from_slice(&bytes).ok()?;
    let claims = JwtClaims {
        email: field(&claims, "email").and_then(|v| v.as_str()).map(str::to_string),
        sub: field(&claims, "sub").and_then(|v| v.as_str()).map(str::to_string),
        exp: field(&claims, "exp").and_then(|v| v.as_i64()),
    };
    Some(Identity::from_claims(&claims))
}

/// The identity of a directory holding the given v2 bundle texts and/or
/// legacy file text, read as the program reads one.
fn identity_from_texts(v2: Option<&(String, String)>, legacy: Option<&str>) -> Identity {
    let from_v2 = v2.and_then(|(key, file)| {
        decrypt_v2(key, file)
            .ok()
            .and_then(|p| identity_from_payload(&p))
    });
    let from_legacy = if from_v2.is_none() {
        legacy.and_then(identity_from_payload)
    } else {
        None
    };
    identity_from_attempts(from_v2, from_legacy)
}

#[test]
fn roundtrip_v2_bundle() {
    let bundle = synthetic_bundle("alice@example.com", 1_900_000_000);
    let id = identity_from_texts(Some(&bundle), None);
    assert_eq!(id.email.as_deref(), Some("alice@example.com"));
    assert!(id.expires_at.is_some());
}

#[test]
fn legacy_fallback() {
    let legacy = auth_json(&jwt_for("bob@example.com", "u1", 1_900_000_000));
    let id = identity_from_texts(None, Some(&legacy));
    assert_eq!(id.email.as_deref(), Some("bob@example.com"));
}

#[test]
fn unknown_when_empty() {
    let id = identity_from_texts(None, None);
    assert_eq!(id, Identity::unknown());
}

#[test]
fn roundtrip_v2_bundle_with_16_byte_iv() {
    let bundle = synthetic_bundle_16iv("carol@example.com", 1_900_000_000);
    let id = identity_from_texts(Some(&bundle), None);
    assert_eq!(id.email.as_deref(), Some("carol@example.com"));
}

#[test]
fn v2_wins_over_legacy() {
    let bundle = synthetic_bundle("new@example.com", 1_900_000_000);
    let legacy = auth_json(&jwt_for("old@example.com", "u1", 1_900_000_000));
    let id = identity_from_texts(Some(&bundle), Some(&legacy));
    assert_eq!(id.email.as_deref(), Some("new@example.com"));
    assert_eq!(id.subject.as_deref(), Some("user_test"));
    assert_eq!(id.expires_at, Some(1_900_000_000));
}

#[test]
fn broken_v2_falls_back_to_legacy() {
    let (key, _) = synthetic_bundle("new@example.com", 1_900_000_000);
    let broken = (key, "not:a:bundle!".to_string());
    let legacy = auth_json(&jwt_for("old@example.com", "u1", 1_900_000_000));
    let id = identity_from_texts(Some(&broken), Some(&legacy));
    assert_eq!(id.email.as_deref(), Some("old@example.com"));
}

#[test]
fn decrypt_returns_the_payload() {
    let (key, file) = synthetic_bundle("alice@example.com", 1_900_000_000);
    let expected = auth_json(&jwt_for("alice@example.com", "user_test", 1_900_000_000));
    assert_eq!(decrypt_v2(&key, &file), Ok(expected.clone()));
    // White space around either text is ignored.
    let padded_key = format!("  {key}\n");
    let padded_file = format!("{file}\n");
    assert_eq!(decrypt_v2(&padded_key, &padded_file), Ok(expected));
}

#[test]
fn decrypt_errors_say_what_failed() {
    let (key, file) = synthetic_bundle("alice@example.com", 1_900_000_000);
    assert_eq!(decrypt_v2("%%%", &file), Err(DecryptError::KeyNotBase64));
    assert_eq!(
        decrypt_v2(&B64.encode([1u8; 16]), &file),
        Err(DecryptError::KeyLength(16))
    );
    assert_eq!(decrypt_v2(&key, "a:b"), Err(DecryptError::SegmentCount(2)));
    assert_eq!(decrypt_v2(&key, "a:b:c:d"), Err(DecryptError::SegmentCount(4)));
    let parts: Vec<&str> = file.split(':').collect();
    assert_eq!(
        decrypt_v2(&key, &format!("!:{}:{}", parts[1], parts[2])),
        Err(DecryptError::IvNotBase64)
    );
    assert_eq!(
        decrypt_v2(&key, &format!("{}:!:{}", parts[0], parts[2])),
        Err(DecryptError::TagNotBase64)
    );
    assert_eq!(
        decrypt_v2(&key, &format!("{}:{}:!", parts[0], parts[1])),
        Err(DecryptError::CiphertextNotBase64)
    );
    assert_eq!(
        decrypt_v2(&key, &format!("{}:{}:{}", B64.encode([0u8; 8]), parts[1], parts[2])),
        Err(DecryptError::IvLength(8))
    );
    let wrong_key = B64.encode([8u8; 32]);
    assert_eq!(decrypt_v2(&wrong_key, &file), Err(DecryptError::Decryption));
}

#[test]
fn decrypt_refuses_non_utf8_plaintext() {
    let iv = [5u8; 12];
    let cipher = AesGcm::<Aes256, U12>::new_from_slice(&KEY).unwrap();
    let sealed = cipher
        .encrypt(GenericArray::from_slice(&iv), &[0xffu8, 0xfe][..])
        .unwrap();
    let (ct, tag) = sealed.split_at(sealed.len() - 16);
    let file = format!("{}:{}:{}", B64.encode(iv), B64.encode(tag), B64.encode(ct));
    assert_eq!(decrypt_v2(&B64.encode(KEY), &file), Err(DecryptError::NotUtf8));
}

#[test]
fn jwt_payload_decodes_the_middle_segment() {
    let jwt = jwt_for("a@x.com", "s", 5);
    let bytes = jwt_payload(&jwt).unwrap();
    assert_eq!(
        String::from_utf8(bytes).unwrap(),
        r#"{"email":"a@x.com","sub":"s","exp":5}"#
    );
    assert_eq!(jwt_payload("a.b"), Err(JwtError::NotJwt(2)));
    assert_eq!(jwt_payload("nodots"), Err(JwtError::NotJwt(1)));
    assert_eq!(jwt_payload("a.!!!.c"), Err(JwtError::PayloadNotBase64));
    // URL-safe, unpadded base64 only.
    assert_eq!(jwt_payload("a.YQ==.c"), Err(JwtError::PayloadNotBase64));
    assert_eq!(jwt_payload("a.YQ.c"), Ok(b"a".to_vec()));
}

#[test]
fn expiry_outside_chrono_range_is_dropped() {
    assert!(timestamp_in_range(MIN_TIMESTAMP));
    assert!(timestamp_in_range(MAX_TIMESTAMP));
    assert!(!timestamp_in_range(MIN_TIMESTAMP - 1));
    assert!(!timestamp_in_range(MAX_TIMESTAMP + 1));
    assert!(timestamp_in_range(0));
    let claims = |exp| JwtClaims {
        email: Some("e@x.com".to_string()),
        sub: None,
        exp,
    };
    assert_eq!(Identity::from_claims(&claims(Some(42))).expires_at, Some(42));
    assert_eq!(Identity::from_claims(&claims(Some(i64::MAX))).expires_at, None);
    assert_eq!(Identity::from_claims(&claims(None)).expires_at, None);
    assert_eq!(
        Identity::from_claims(&claims(Some(1))).email.as_deref(),
        Some("e@x.com")
    );
}

#[test]
fn display_email_and_expiry() {
    let id = Identity {
        email: None,
        subject: Some("sub-1".to_string()),
        expires_at: Some(100),
    };
    assert_eq!(id.display_email(), "sub-1");
    assert_eq!(Identity::unknown().display_email(), "-");
    assert!(id.is_expired(100));
    assert!(!id.is_expired(99));
    assert!(!Identity::unknown().is_expired(i64::MAX));
}

#[test]
fn attempts_prefer_v2_then_legacy() {
    let a = Identity {
        email: Some("a@x.com".to_string()),
        subject: None,
        expires_at: None,
    };
    let b = Identity {
        email: Some("b@x.com".to_string()),
        subject: None,
        expires_at: None,
    };
    assert_eq!(identity_from_attempts(Some(a.clone()), Some(b.clone())), a);
    assert_eq!(identity_from_attempts(None, Some(b.clone())), b);
    assert_eq!(identity_from_attempts(None, None), Identity::unknown());
}

#[test]
fn decrypt_error_messages() {
    assert_eq!(DecryptError::KeyNotBase64.message(), "decode auth.v2.key (base64)");
    assert_eq!(
        DecryptError::KeyLength(16).message(),
        "auth.v2.key must decode to 32 bytes (got 16)"
    );
    assert_eq!(
        DecryptError::SegmentCount(2).message(),
        "auth.v2.file must have 3 colon-separated segments, got 2"
    );
    assert_eq!(DecryptError::IvNotBase64.message(), "decode iv");
    assert_eq!(DecryptError::TagNotBase64.message(), "decode tag");
    assert_eq!(DecryptError::CiphertextNotBase64.message(), "decode ciphertext");
    assert_eq!(
        DecryptError::IvLength(8).message(),
        "unsupported IV length 8 (expected 12 or 16)"
    );
    assert_eq!(
        DecryptError::Decryption.message(),
        "AES-GCM decryption failed (wrong key or corrupt file)"
    );
    assert_eq!(DecryptError::NotUtf8.message(), "decrypted payload is not UTF-8");
    assert_eq!(JwtError::NotJwt(2).message(), "not a JWT (expected 3 segments)");
    assert_eq!(JwtError::PayloadNotBase64.message(), "decode JWT payload");
}

#[test]
fn unsupported_iv_length_is_reported() {
    // A 32-byte zero key, an 8-byte IV, a 16-byte tag and 3 bytes of data.
    let key = format!("{}=", "A".repeat(43));
    let file = format!("{}=:{}==:AAAA", "A".repeat(11), "A".repeat(22));
    let err = decrypt_v2(&key, &file).unwrap_err();
    assert_eq!(err, DecryptError::IvLength(8));
    assert!(err.message().contains("unsupported IV length 8"));
}

#[test]
fn tampered_bundle_fails_to_open() {
    let (key, file) = synthetic_bundle("alice@example.com", 1_900_000_000);
    let parts: Vec<&str> = file.split(':').collect();
    let mut ct = B64.decode(parts[2]).unwrap();
    ct[0] ^= 1;
    let tampered = format!("{}:{}:{}", parts[0], parts[1], B64.encode(ct));
    let err = decrypt_v2(&key, &tampered).unwrap_err();
    assert!(err.message().contains("AES-GCM decryption failed"));
}

#[test]
fn jwt_header_and_signature_do_not_matter() {
    let payload = B64URL.encode(br#"{"email":"a@x.com"}"#);
    let a = jwt_payload(&format!("h1.{payload}.s1"));
    let b = jwt_payload(&format!("other.{payload}.sig-2"));
    assert_eq!(a, b);
    assert_eq!(a.unwrap(), br#"{"email":"a@x.com"}"#.to_vec());
}
