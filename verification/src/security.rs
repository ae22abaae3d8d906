//! Credential hashing and verification: one-way hashing of passwords with a
//! memory-hard algorithm and a random per-call salt, and fail-closed
//! verification against the self-describing encoded hash.

use vstd::prelude::*;

verus! {

/// Whether `verify` accepts `password` against the encoded hash `encoded`:
/// what `argon2::verify_encoded` (crate rust-argon2) returns, with its error
/// collapsed to `false`. The result is a function of the two arguments alone;
/// it is named rather than spelled out because it abbreviates the whole
/// Argon2 derivation.
pub uninterp spec fn password_matches(encoded: Seq<char>, password: Seq<u8>) -> bool;

/// Relies on `rand::random`: a fresh 32-byte salt from the thread-local
/// cryptographic generator. Nothing is assumed of the value drawn.
#[verifier::external_body]
fn random_salt() -> (salt: [u8; 32]) {
    rand::random::<[u8; 32]>()
}

/// Relies on `argon2::hash_encoded` (crate rust-argon2): with the default
/// configuration and a 32-byte salt it succeeds on every password no longer
/// than the algorithm's cap, and `argon2::verify_encoded` accepts the encoded
/// result against the same password (the encoding embeds the parameters and
/// salt that verification re-derives with).
#[verifier::external_body]
fn argon2_hash_encoded(password: &[u8], salt: &[u8; 32]) -> (encoded: String)
    requires
        password@.len() <= 0xFFFF_FFFF,
    ensures
        password_matches(encoded@, password@),
{
    argon2::hash_encoded(password, salt, &argon2::Config::default()).unwrap()
}

/// Relies on `argon2::verify_encoded` (crate rust-argon2): re-derives the
/// hash with the parameters embedded in `encoded` and compares in constant
/// time; a malformed encoding and a mismatched password are both `false`.
#[verifier::external_body]
fn argon2_verify_encoded(encoded: &str, password: &[u8]) -> (ok: bool)
    ensures
        ok == password_matches(encoded@, password@),
{
    argon2::verify_encoded(encoded, password).unwrap_or(false)
}

/// Hashes `password` under a fresh cryptographically random 32-byte salt and
/// returns the self-describing encoded hash. Two calls on the same password
/// yield independently salted encodings; each of them verifies that password.
pub fn hash(password: &[u8]) -> (encoded: String)
    requires
        password@.len() <= 0xFFFF_FFFF,
    ensures
        password_matches(encoded@, password@),
{
    let salt = random_salt();
    argon2_hash_encoded(password, &salt)
}

/// Checks `password` against the encoded hash `hash`. Fails closed: a
/// malformed encoding and a wrong password are indistinguishably `false`,
/// and the call never panics.
pub fn verify(hash: &str, password: &[u8]) -> (ok: bool)
    ensures
        ok == password_matches(hash@, password@),
{
    argon2_verify_encoded(hash, password)
}

} // verus!
