//! Hashing and verifying passwords with Argon2.

use vstd::prelude::*;
use crate::error::AuthError;

verus! {

/// Whether Argon2 verification accepts `password` against the PHC hash string `hash`.
pub uninterp spec fn argon2_accepts(password: Seq<char>, hash: Seq<char>) -> bool;

/// Relies on argon2's `PasswordHasher::hash_password` (default parameters,
/// salt from `SaltString::generate`) and the PHC text form of its result:
/// that string starts with `$` and verifies against the password it hashes.
/// Argon2 refuses only a password longer than `MAX_PWD_LEN` (0xFFFFFFFF)
/// bytes, and a character takes at most four bytes.
#[verifier::external_body]
fn argon2_hash(password: &str) -> (r: Option<String>)
    ensures
        r matches Some(h) ==> h@.len() > 0 && argon2_accepts(password@, h@),
        password@.len() <= MAX_PASSWORD_CHARS ==> r is Some,
{
    let salt = password_hash::SaltString::generate(&mut password_hash::rand_core::OsRng);
    let hasher = argon2::Argon2::default();
    argon2::PasswordHasher::hash_password(&hasher, password.as_bytes(), &salt).ok().map(|h| h.to_string())
}

/// Relies on argon2's `PasswordVerifier::verify_password`, after
/// `PasswordHash::new` parses the PHC string; a string that does not parse
/// is not accepted.
#[verifier::external_body]
fn argon2_verify(password: &str, hash: &str) -> (r: bool)
    ensures
        r == argon2_accepts(password@, hash@),
{
    match password_hash::PasswordHash::new(hash) {
        Ok(parsed) => argon2::PasswordVerifier::verify_password(
            &argon2::Argon2::default(),
            password.as_bytes(),
            &parsed,
        ).is_ok(),
        Err(_) => false,
    }
}

/// The longest password, in characters, that is sure to be hashed.
pub const MAX_PASSWORD_CHARS: usize = 0x3FFF_FFFF;

/// Whether `password` matches the stored hash `hash`: neither is empty and
/// Argon2 accepts the pair.
pub open spec fn password_matches(password: Seq<char>, hash: Seq<char>) -> bool {
    password.len() > 0 && hash.len() > 0 && argon2_accepts(password, hash)
}

/// Hashes and verifies passwords with Argon2.
#[derive(Debug, Default)]
pub struct Argon2PasswordManager {}

impl Argon2PasswordManager {
    /// A manager with Argon2's default parameters.
    pub fn new() -> (r: Self) {
        Argon2PasswordManager {  }
    }

    /// Hashes a password. An empty password is refused.
    pub fn hash_password(&self, password: &str) -> (r: Result<String, AuthError>)
        ensures
            password@.len() == 0 <==> r == Err::<String, AuthError>(AuthError::InvalidPassword),
            r == Err::<String, AuthError>(AuthError::HashingError) ==> password@.len() > MAX_PASSWORD_CHARS,
            match r {
                Ok(h) => password_matches(password@, h@),
                Err(e) => e == AuthError::InvalidPassword || e == AuthError::HashingError,
            },
    {
        if password.is_empty() {
            return Err(AuthError::InvalidPassword);
        }
        match argon2_hash(password) {
            Some(h) => Ok(h),
            None => Err(AuthError::HashingError),
        }
    }

    /// The longest password, in characters, that is sure to be hashed.
pub const MAX_PASSWORD_CHARS: usize = 0x3FFF_FFFF;

/// Whether `password` matches the stored hash `hashed_password`.
    pub fn verify_password(&self, password: &str, hashed_password: &str) -> (r: bool)
        ensures
            r == password_matches(password@, hashed_password@),
    {
        if password.is_empty() || hashed_password.is_empty() {
            return false;
        }
        argon2_verify(password, hashed_password)
    }
}

} // verus!
