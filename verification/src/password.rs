//! One-way password hashing and verification, built on a salted,
//! computationally expensive algorithm. Mismatch is a normal `false` result,
//! never an error, and a malformed stored hash also verifies as `false`.

use vstd::prelude::*;

verus! {

/// Whether the hashing algorithm accepts `password` against the stored hash
/// string `hash`. This names the outcome of the check: it is a deterministic
/// function of the two arguments, false on every malformed stored hash, and
/// true on any hash freshly produced for the same password.
pub uninterp spec fn bcrypt_check(password: Seq<u8>, hash: Seq<char>) -> bool;

/// The hashing step could not run (the system's source of randomness failed
/// to produce a salt). Fatal to the enclosing operation; never retried here.
#[derive(Clone, Copy, Debug, PartialEq, Eq, Structural)]
pub struct HashingError;

/// Relies on `bcrypt::verify`: its outcome depends only on the password
/// bytes and the stored hash string; a stored hash that does not parse as a
/// bcrypt hash yields an error, reported here as a mismatch, never a panic.
#[verifier::external_body]
fn bcrypt_verify_call(password: &Vec<u8>, stored: &String) -> (r: bool)
    ensures
        r == bcrypt_check(password@, stored@),
{
    bcrypt::verify(password.as_slice(), stored.as_str()).unwrap_or(false)
}

/// Relies on `bcrypt::hash` with `DEFAULT_COST`: it embeds a fresh random
/// salt and the parameters in the returned string, fails only when the
/// randomness source does, and documents that `bcrypt::verify` accepts the
/// password against the hash it produced.
#[verifier::external_body]
fn bcrypt_hash_call(password: &Vec<u8>) -> (r: Option<String>)
    ensures
        r matches Some(h) ==> bcrypt_check(password@, h@),
{
    bcrypt::hash(password.as_slice(), bcrypt::DEFAULT_COST).ok()
}

/// One-way hashing and verification of plaintext passwords.
pub struct PasswordHasher;

impl PasswordHasher {
    /// Produces a salted hash string that embeds the algorithm parameters
    /// and salt, so verification later needs no external state.
    pub fn hash(password: &Vec<u8>) -> (r: Result<String, HashingError>)
        ensures
            r matches Ok(h) ==> bcrypt_check(password@, h@),
    {
        match bcrypt_hash_call(password) {
            Some(h) => Ok(h),
            None => Err(HashingError),
        }
    }

    /// Recomputes the hash with the embedded salt and parameters and
    /// compares. Mismatch and malformed stored hashes are `false`.
    pub fn verify(password: &Vec<u8>, stored: &String) -> (r: bool)
        ensures
            r == bcrypt_check(password@, stored@),
    {
        bcrypt_verify_call(password, stored)
    }
}

/// Every password verifies against a hash freshly produced for it: whenever
/// hashing succeeds, the check of the same password against the new hash is
/// true. `None` only when the hashing step itself failed.
pub fn hash_verify_round_trip(password: &Vec<u8>) -> (r: Option<bool>)
    ensures
        r matches Some(ok) ==> ok,
{
    match PasswordHasher::hash(password) {
        Ok(h) => Some(PasswordHasher::verify(password, &h)),
        Err(_) => None,
    }
}

} // verus!
