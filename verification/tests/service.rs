use authgate::auth::{AuthError, AuthService, TOKEN_TTL_SECONDS};
use authgate::codec::decode;
use authgate::middleware::{jwt_middleware, response_status, GateDecision, RejectReason};
use authgate::models::Role;
use authgate::password::{hash_verify_round_trip, PasswordHasher};

#[test]
fn password_hash_then_verify_succeeds() {
    let password = b"correct horse battery staple".to_vec();
    assert_eq!(hash_verify_round_trip(&password), Some(true));
}

#[test]
fn wrong_password_verifies_false() {
    let password = b"right password".to_vec();
    let hash = PasswordHasher::hash(&password).expect("hashing must run");
    assert!(!PasswordHasher::verify(&b"wrong password".to_vec(), &hash));
}

#[test]
fn malformed_stored_hash_verifies_false() {
    let password = b"anything".to_vec();
    let legacy_plaintext_row = String::from("anything");
    assert!(!PasswordHasher::verify(&password, &legacy_plaintext_row));
}

#[test]
fn login_issues_a_decodable_token() {
    let mut service = AuthService::new(b"signing-secret".to_vec());
    let created = service
        .register(&b"Alice".to_vec(), &b"alice@example.com".to_vec(), &b"pw1".to_vec(), Role::Client)
        .expect("registration must succeed");
    let now = 10_000;
    let token = service
        .login(&b"alice@example.com".to_vec(), &b"pw1".to_vec(), now)
        .expect("login with the right password must succeed");
    let claims = decode(&token, &service.secret, now).expect("issued token must decode");
    assert_eq!(claims.subject_id, created.id);
    assert_eq!(claims.username, b"Alice".to_vec());
    assert_eq!(claims.role, b"client".to_vec());
    assert_eq!(claims.issued_at, now);
    assert_eq!(claims.expires_at, now + TOKEN_TTL_SECONDS);
}

#[test]
fn wrong_password_and_unknown_user_are_indistinguishable() {
    let mut service = AuthService::new(b"signing-secret".to_vec());
    service
        .register(&b"Admin".to_vec(), &b"admin".to_vec(), &b"password".to_vec(), Role::Provider)
        .expect("registration must succeed");
    let wrong_password = service.login(&b"admin".to_vec(), &b"wrong".to_vec(), 0);
    let unknown_user = service.login(&b"nouser".to_vec(), &b"anything".to_vec(), 0);
    assert_eq!(wrong_password, Err(AuthError::InvalidCredentials));
    assert_eq!(unknown_user, Err(AuthError::InvalidCredentials));
    assert_eq!(wrong_password, unknown_user);
}

#[test]
fn duplicate_registration_fails_exactly_once() {
    let mut service = AuthService::new(b"signing-secret".to_vec());
    let first = service
        .register(&b"Bob".to_vec(), &b"bob@example.com".to_vec(), &b"pw-one".to_vec(), Role::Client)
        .expect("first registration must succeed");
    assert_eq!(first.id, 1);
    let second = service.register(
        &b"Bobby".to_vec(),
        &b"bob@example.com".to_vec(),
        &b"pw-two".to_vec(),
        Role::Provider,
    );
    assert_eq!(second, Err(AuthError::DuplicateIdentifier));
    assert_eq!(service.store.len(), 1);
    // The original record is untouched: the first password still logs in.
    assert!(service.login(&b"bob@example.com".to_vec(), &b"pw-one".to_vec(), 0).is_ok());
}

#[test]
fn middleware_forwards_valid_token_with_identity() {
    let mut service = AuthService::new(b"gate-secret".to_vec());
    let created = service
        .register(&b"Carol".to_vec(), &b"carol@example.com".to_vec(), &b"pw".to_vec(), Role::Client)
        .expect("registration must succeed");
    let token = service.login(&b"carol@example.com".to_vec(), &b"pw".to_vec(), 500).unwrap();
    let mut header = b"Bearer ".to_vec();
    header.extend_from_slice(&token);
    let decision = jwt_middleware(Some(&header), &service.secret, 600);
    match decision {
        GateDecision::Forward(claims) => {
            assert_eq!(claims.subject_id, created.id);
            assert_eq!(response_status(&GateDecision::Forward(claims)), 200);
        }
        GateDecision::Reject(reason) => panic!("valid token rejected: {:?}", reason),
    }
}

#[test]
fn middleware_rejects_absent_malformed_expired_and_missigned() {
    let mut service = AuthService::new(b"gate-secret".to_vec());
    service
        .register(&b"Dan".to_vec(), &b"dan@example.com".to_vec(), &b"pw".to_vec(), Role::Client)
        .expect("registration must succeed");
    let token = service.login(&b"dan@example.com".to_vec(), &b"pw".to_vec(), 500).unwrap();
    let secret = &service.secret;

    let absent = jwt_middleware(None, secret, 600);
    assert!(matches!(absent, GateDecision::Reject(RejectReason::MissingToken)));
    assert_eq!(response_status(&absent), 401);

    let not_bearer = jwt_middleware(Some(&b"Basic abc".to_vec()), secret, 600);
    assert!(matches!(not_bearer, GateDecision::Reject(RejectReason::MissingToken)));

    let garbage = jwt_middleware(Some(&b"Bearer garbage".to_vec()), secret, 600);
    assert!(matches!(garbage, GateDecision::Reject(RejectReason::Malformed)));
    assert_eq!(response_status(&garbage), 401);

    let mut header = b"Bearer ".to_vec();
    header.extend_from_slice(&token);
    let expired = jwt_middleware(Some(&header), secret, 500 + TOKEN_TTL_SECONDS + 1);
    assert!(matches!(expired, GateDecision::Reject(RejectReason::Expired)));
    assert_eq!(response_status(&expired), 401);

    let mut bad = header.clone();
    let last = bad.len() - 1;
    bad[last] ^= 0x01;
    let missigned = jwt_middleware(Some(&bad), secret, 600);
    assert!(matches!(missigned, GateDecision::Reject(RejectReason::BadSignature)));
    assert_eq!(response_status(&missigned), 401);
}
