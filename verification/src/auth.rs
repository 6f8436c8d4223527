//! The authentication service: it checks credentials against the user store
//! and issues signed tokens, and it registers new users with a hashed
//! password. An unknown identifier and a wrong password fail with the very
//! same error, so a caller cannot probe which identifiers exist.

use vstd::prelude::*;
use crate::codec;
use crate::codec::{Claims, ClaimsV, token_of};
use crate::models::{role_bytes, role_seq, Role, User, UserV};
use crate::password::{bcrypt_check, PasswordHasher};
use crate::store::{email_user, has_email, StoreError, UserStore};

verus! {

/// How long an issued token stays valid, in seconds.
pub const TOKEN_TTL_SECONDS: u64 = 3600;

/// Why an authentication operation failed.
#[derive(Clone, Copy, Debug, PartialEq, Eq, Structural)]
pub enum AuthError {
    /// Unknown identifier or wrong password: deliberately merged into one
    /// indistinguishable error.
    InvalidCredentials,
    /// Registration found a record with the same email.
    DuplicateIdentifier,
    /// The store could not take the operation; safe for the caller to retry.
    StoreUnavailable,
    /// The password could not be hashed. Fatal for this request.
    Hashing,
}

/// The authentication service: the user store and the process-wide signing
/// secret, which is set at construction and read-only afterwards.
pub struct AuthService {
    pub store: UserStore,
    pub secret: Vec<u8>,
}

impl AuthService {
    /// The signing secret shared by all token operations. Set at
    /// construction; the library never writes it afterwards.
    pub open spec fn spec_secret(&self) -> Seq<u8> {
        self.secret@
    }

    pub open spec fn wf(&self) -> bool {
        self.store.wf()
    }

    /// The claims issued for `u` at time `now`.
    pub open spec fn login_claims(u: UserV, now: u64) -> ClaimsV
        recommends
            now + TOKEN_TTL_SECONDS <= u64::MAX,
    {
        ClaimsV {
            subject_id: u.id,
            username: u.name,
            role: role_seq(u.role),
            issued_at: now,
            expires_at: (now + TOKEN_TTL_SECONDS) as u64,
        }
    }

    /// A service over an empty store, holding the signing secret.
    pub fn new(secret: Vec<u8>) -> (s: Self)
        ensures
            s.wf(),
            s.store@.len() == 0,
            s.spec_secret() == secret@,
    {
        AuthService { store: UserStore::new(), secret }
    }

    /// Checks the credentials and issues a token. Fails with
    /// `InvalidCredentials` both when the identifier is unknown and when the
    /// password does not verify — the two cases are indistinguishable. On
    /// success the token is exactly the encoding of the user's claims at
    /// `now` under the service's secret.
    pub fn login(&self, identifier: &Vec<u8>, password: &Vec<u8>, now: u64) -> (r: Result<
        Vec<u8>,
        AuthError,
    >)
        requires
            self.wf(),
            now + TOKEN_TTL_SECONDS <= u64::MAX,
        ensures
            ({
                if !has_email(self.store@, identifier@) {
                    r == Err::<Vec<u8>, AuthError>(AuthError::InvalidCredentials)
                } else {
                    let u = email_user(self.store@, identifier@);
                    if !bcrypt_check(password@, u.password_hash) {
                        r == Err::<Vec<u8>, AuthError>(AuthError::InvalidCredentials)
                    } else {
                        r matches Ok(t) && t@ == token_of(
                            Self::login_claims(u, now),
                            self.spec_secret(),
                        )
                    }
                }
            }),
    {
        match self.store.find_by_identifier(identifier) {
            None => Err(AuthError::InvalidCredentials),
            Some(user) => {
                if !PasswordHasher::verify(password, &user.password_hash) {
                    Err(AuthError::InvalidCredentials)
                } else {
                    let claims = Claims {
                        subject_id: user.id,
                        username: user.name,
                        role: role_bytes(user.role),
                        issued_at: now,
                        expires_at: now + TOKEN_TTL_SECONDS,
                    };
                    proof {
                        assert(claims@ =~= Self::login_claims(
                            email_user(self.store@, identifier@),
                            now,
                        ));
                    }
                    Ok(codec::encode(&claims, &self.secret))
                }
            },
        }
    }

    /// Registers a new user: refuses a duplicate email before anything else,
    /// then hashes the password and persists the record. The created record
    /// is returned; neither the plaintext nor the hash is echoed anywhere
    /// else. On any failure the store is unchanged.
    pub fn register(&mut self, name: &Vec<u8>, email: &Vec<u8>, password: &Vec<u8>, role: Role)
        -> (r: Result<User, AuthError>)
        requires
            old(self).wf(),
        ensures
            final(self).wf(),
            final(self).spec_secret() == old(self).spec_secret(),
            has_email(old(self).store@, email@) ==> r == Err::<User, AuthError>(
                AuthError::DuplicateIdentifier,
            ) && final(self).store@ == old(self).store@,
            !has_email(old(self).store@, email@) ==> match r {
                Ok(u) => {
                    &&& u@.name == name@
                    &&& u@.email == email@
                    &&& u@.role == role
                    &&& bcrypt_check(password@, u@.password_hash)
                    &&& final(self).store@ == old(self).store@.push(u@)
                },
                Err(e) => {
                    &&& (e == AuthError::Hashing || e == AuthError::StoreUnavailable)
                    &&& final(self).store@ == old(self).store@
                },
            },
    {
        if self.store.find_by_identifier(email).is_some() {
            return Err(AuthError::DuplicateIdentifier);
        }
        let hash = match PasswordHasher::hash(password) {
            Ok(h) => h,
            Err(_) => {
                return Err(AuthError::Hashing);
            },
        };
        match self.store.insert(name, email, hash, role) {
            Ok(u) => Ok(u),
            Err(StoreError::DuplicateEmail) => Err(AuthError::DuplicateIdentifier),
            Err(StoreError::Full) => Err(AuthError::StoreUnavailable),
        }
    }
}

/// Once a registration with some email has succeeded, the store holds that
/// email, so any later registration attempt with the same email finds a
/// duplicate: of two registrations with one email, at most one succeeds.
pub proof fn lemma_duplicate_registration(before: Seq<UserV>, created: UserV, email: Seq<u8>)
    requires
        created.email == email,
    ensures
        has_email(before.push(created), email),
{
    assert(before.push(created)[before.len() as int] == created);
}

} // verus!
