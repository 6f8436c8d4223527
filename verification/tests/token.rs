use authgate::codec::{decode, encode, Claims, TokenError};

fn sample_claims() -> Claims {
    Claims {
        subject_id: 7,
        username: b"alice".to_vec(),
        role: b"client".to_vec(),
        issued_at: 1_000,
        expires_at: 2_000,
    }
}

#[test]
fn round_trip_before_expiry() {
    let secret = b"server-secret".to_vec();
    let claims = sample_claims();
    let token = encode(&claims, &secret);
    let decoded = decode(&token, &secret, 1_500).expect("a fresh token must decode");
    assert_eq!(decoded, claims);
}

#[test]
fn round_trip_at_expiry_boundary() {
    let secret = b"server-secret".to_vec();
    let claims = sample_claims();
    let token = encode(&claims, &secret);
    // now == expires_at is still valid; one second later is not.
    assert!(decode(&token, &secret, 2_000).is_ok());
    assert_eq!(decode(&token, &secret, 2_001), Err(TokenError::Expired));
}

#[test]
fn expired_token_fails_even_with_valid_signature() {
    let secret = b"server-secret".to_vec();
    let claims = sample_claims();
    let token = encode(&claims, &secret);
    assert_eq!(decode(&token, &secret, 5_000), Err(TokenError::Expired));
}

#[test]
fn tampering_any_payload_byte_fails() {
    let secret = b"server-secret".to_vec();
    let claims = sample_claims();
    let token = encode(&claims, &secret);
    // Payload: version byte, three u64 fields, two length-prefixed strings.
    let payload_len = 41 + b"alice".len() + b"client".len();
    for i in 1..payload_len {
        let mut bad = token.clone();
        bad[i] ^= 0x01;
        let r = decode(&bad, &secret, 1_500);
        assert!(r.is_err(), "tampered byte {} must not decode", i);
        assert_ne!(r, Ok(claims_copy(&claims)), "claims must never be altered");
    }
}

#[test]
fn tampering_version_or_signature_fails() {
    let secret = b"server-secret".to_vec();
    let claims = sample_claims();
    let token = encode(&claims, &secret);
    let mut bad_version = token.clone();
    bad_version[0] = 2;
    assert_eq!(decode(&bad_version, &secret, 1_500), Err(TokenError::Malformed));
    let mut bad_sig = token.clone();
    let last = bad_sig.len() - 1;
    bad_sig[last] ^= 0x01;
    assert_eq!(decode(&bad_sig, &secret, 1_500), Err(TokenError::BadSignature));
}

#[test]
fn wrong_secret_fails_with_bad_signature() {
    let secret = b"server-secret".to_vec();
    let other = b"other-secret".to_vec();
    let claims = sample_claims();
    let token = encode(&claims, &secret);
    assert_eq!(decode(&token, &other, 1_500), Err(TokenError::BadSignature));
}

#[test]
fn truncated_token_is_malformed() {
    let secret = b"server-secret".to_vec();
    let claims = sample_claims();
    let token = encode(&claims, &secret);
    let short: Vec<u8> = token[..20].to_vec();
    assert_eq!(decode(&short, &secret, 1_500), Err(TokenError::Malformed));
    assert_eq!(decode(&Vec::new(), &secret, 1_500), Err(TokenError::Malformed));
}

#[test]
fn signature_is_a_real_mac() {
    let secret = b"server-secret".to_vec();
    let claims = sample_claims();
    let token = encode(&claims, &secret);
    // Payload, one separator byte, then the 43-character base64 form of a
    // 32-byte HMAC-SHA256 value.
    let payload_len = 41 + b"alice".len() + b"client".len();
    assert_eq!(token.len(), payload_len + 1 + 43);
}

#[test]
fn empty_username_and_role_round_trip() {
    let secret = b"s".to_vec();
    let claims = Claims {
        subject_id: 0,
        username: Vec::new(),
        role: Vec::new(),
        issued_at: 0,
        expires_at: 0,
    };
    let token = encode(&claims, &secret);
    assert_eq!(decode(&token, &secret, 0), Ok(claims));
}

#[test]
fn largest_field_values_round_trip() {
    let secret = b"s".to_vec();
    let claims = Claims {
        subject_id: u64::MAX,
        username: b"a".repeat(300),
        role: Vec::new(),
        issued_at: u64::MAX,
        expires_at: u64::MAX,
    };
    let token = encode(&claims, &secret);
    let decoded = decode(&token, &secret, u64::MAX).expect("must decode");
    assert_eq!(decoded, claims);
}

fn claims_copy(c: &Claims) -> Claims {
    Claims {
        subject_id: c.subject_id,
        username: c.username.clone(),
        role: c.role.clone(),
        issued_at: c.issued_at,
        expires_at: c.expires_at,
    }
}
