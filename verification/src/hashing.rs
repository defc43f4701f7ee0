//! Password hashing, through the argon2 crate.
//!
//! The scheme's behaviour is named, not restated: `password_matches` stands
//! for what the verifier of the scheme accepts, and the two wrappers relate
//! hashing and verification through that name.

use vstd::prelude::*;
use argon2::PasswordHasher;
use argon2::PasswordVerifier;

verus! {

/// Error of the password-hashing routine.
#[derive(Clone, Copy, Debug)]
pub struct HashError;

/// Whether the password-hashing scheme's verification accepts `password`
/// against the PHC hash string `hash`: a function of the two values alone.
pub uninterp spec fn password_matches(password: Seq<char>, hash: Seq<char>) -> bool;

/// Relies on argon2's `PasswordHasher::hash_password`, which hashes the
/// password with a fresh random salt and records salt and parameters in the
/// produced PHC string: that string verifies against the hashed password
/// under `PasswordVerifier::verify_password`.
#[verifier::external_body]
pub fn hash_password(password: &String) -> (r: Result<String, HashError>)
    ensures
        r matches Ok(h) ==> password_matches(password@, h@),
{
    match argon2::Argon2::default().hash_password(password.as_bytes()) {
        Ok(h) => Ok(h.to_string()),
        Err(_) => Err(HashError),
    }
}

/// Relies on argon2's `PasswordVerifier::<str>::verify_password`: it parses
/// the PHC hash string, recomputes the hash of the password under the
/// recorded salt and parameters, and compares — a deterministic function of
/// the password and the hash string alone.
#[verifier::external_body]
pub fn verify_password(password: &String, hash: &String) -> (r: bool)
    ensures
        r == password_matches(password@, hash@),
{
    argon2::Argon2::default().verify_password(password.as_bytes(), hash.as_str()).is_ok()
}

} // verus!
