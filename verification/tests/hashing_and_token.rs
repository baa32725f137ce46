//! Secret hashing and token issue/verification, exercised end to end with
//! the real argon2 and jsonwebtoken backends.

use track_api_challenge::hashing::{hash_password, verify_password, PasswordError};
use track_api_challenge::token::{issue_jwt, issue_jwt_at, verify_jwt, TokenError};

const SECRET: &[u8] = b"test-signing-secret";

#[test]
fn hash_round_trip_succeeds() {
    let hash = hash_password("correct horse battery").expect("hashing should succeed");
    assert!(verify_password("correct horse battery", &hash).is_ok());
}

#[test]
fn hash_rejects_every_other_plaintext() {
    let hash = hash_password("password-one").expect("hashing should succeed");
    assert_eq!(
        verify_password("password-two", &hash),
        Err(PasswordError::Mismatch)
    );
    assert_eq!(verify_password("", &hash), Err(PasswordError::Mismatch));
    assert_eq!(
        verify_password("password-one ", &hash),
        Err(PasswordError::Mismatch)
    );
}

#[test]
fn hash_is_salted_but_both_hashes_verify() {
    let h1 = hash_password("same plaintext").expect("hashing should succeed");
    let h2 = hash_password("same plaintext").expect("hashing should succeed");
    assert_ne!(h1, h2, "a fresh salt must make the hash strings differ");
    assert!(verify_password("same plaintext", &h1).is_ok());
    assert!(verify_password("same plaintext", &h2).is_ok());
}

#[test]
fn malformed_stored_hash_is_distinguished() {
    assert_eq!(
        verify_password("anything", "not a phc string"),
        Err(PasswordError::MalformedHash)
    );
    assert_eq!(
        verify_password("anything", ""),
        Err(PasswordError::MalformedHash)
    );
}

#[test]
fn token_round_trip_returns_the_claims() {
    let token = issue_jwt_at("user-1234", SECRET, 100, 200).expect("issuing should succeed");
    let claims = verify_jwt(&token, SECRET, 150).expect("a fresh token should verify");
    assert_eq!(claims.sub, "user-1234");
    assert_eq!(claims.iat, 100);
    assert_eq!(claims.exp, 200);
}

#[test]
fn token_expires_at_exp() {
    let token = issue_jwt_at("user-1234", SECRET, 100, 200).expect("issuing should succeed");
    assert_eq!(verify_jwt(&token, SECRET, 200), Err(TokenError::Expired));
    assert_eq!(verify_jwt(&token, SECRET, 5000), Err(TokenError::Expired));
    assert!(verify_jwt(&token, SECRET, 199).is_ok());
}

#[test]
fn token_issued_now_verifies_now() {
    let token = issue_jwt("fresh-subject", SECRET, 3600).expect("issuing should succeed");
    // `exp` is at least the (nonnegative) issue time plus the ttl, so any
    // time before the ttl has elapsed past zero accepts.
    let claims = verify_jwt(&token, SECRET, 0).expect("a fresh token should verify");
    assert_eq!(claims.sub, "fresh-subject");
    assert_eq!(claims.exp, claims.iat + 3600);
}

#[test]
fn token_tamper_detection() {
    let token = issue_jwt_at("user-1234", SECRET, 100, 200).expect("issuing should succeed");
    let bytes = token.as_bytes();
    for i in 0..bytes.len() {
        let mut flipped = bytes.to_vec();
        flipped[i] ^= 1;
        let flipped = String::from_utf8(flipped).expect("flipping the low bit keeps ASCII");
        let verdict = verify_jwt(&flipped, SECRET, 150);
        assert!(
            verdict.is_err(),
            "a tampered token must never verify (byte {i})"
        );
        if bytes[i] != b'.' {
            // A flip inside a segment leaves the shape intact, so it must
            // surface as a signature failure, never as parsed claims.
            assert_eq!(verdict, Err(TokenError::InvalidSignature), "byte {i}");
        }
    }
}

#[test]
fn token_rejects_wrong_secret() {
    let token = issue_jwt_at("user-1234", SECRET, 100, 200).expect("issuing should succeed");
    assert_eq!(
        verify_jwt(&token, b"another-secret", 150),
        Err(TokenError::InvalidSignature)
    );
}

#[test]
fn token_rejects_garbage() {
    assert_eq!(verify_jwt("", SECRET, 0), Err(TokenError::Malformed));
    assert_eq!(verify_jwt("abc", SECRET, 0), Err(TokenError::Malformed));
    assert_eq!(verify_jwt("a.b", SECRET, 0), Err(TokenError::Malformed));
    assert_eq!(verify_jwt("a.b.c.d", SECRET, 0), Err(TokenError::Malformed));
}

#[test]
fn token_decodes_with_an_independent_consumer() {
    // The token must be a plain JWT: jsonwebtoken's own decoder, with its own
    // base64 and HMAC handling, must agree about signature and claims.
    let token = issue_jwt_at("user-1234", SECRET, 100, 99_999_999_999).expect("issuing");
    let key = jsonwebtoken::DecodingKey::from_secret(SECRET);
    let mut validation = jsonwebtoken::Validation::new(jsonwebtoken::Algorithm::HS256);
    validation.set_required_spec_claims(&["exp"]);
    let data = jsonwebtoken::decode::<serde_json::Value>(&token, &key, &validation)
        .expect("an independent decoder should accept the token");
    assert_eq!(
        data.claims.get("sub").and_then(|v| v.as_str()),
        Some("user-1234")
    );
    assert_eq!(data.claims.get("iat").and_then(|v| v.as_u64()), Some(100));
    assert_eq!(
        data.claims.get("exp").and_then(|v| v.as_u64()),
        Some(99_999_999_999)
    );
}
