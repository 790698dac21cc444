//! Password digesting, treated as a black-box `hash`/`verify` capability.
//!
//! The algorithm internals live in the `argon2` crate; what matters to the
//! login logic is named by [`password_matches`] — whether a stored digest
//! and a presented password belong together — and [`digest_parseable`] —
//! whether a stored string is a well-formed digest at all, the one
//! condition under which verification can run.
use vstd::prelude::*;

use argon2::{PasswordHasher, PasswordVerifier};

verus! {

/// Whether the digest `hash` verifies against `password`. Verification
/// recomputes the digest from the salt and parameters carried inside the
/// digest string, so the result depends on the two strings alone.
pub uninterp spec fn password_matches(hash: Seq<char>, password: Seq<char>) -> bool;

/// Whether `hash` parses as a well-formed digest string (the PHC string
/// format that `password_hash::PasswordHash::new` accepts). Parsing is a
/// deterministic function of the string alone.
pub uninterp spec fn digest_parseable(hash: Seq<char>) -> bool;

/// Relies on `argon2::Argon2::hash_password` with a freshly generated random
/// salt: the digest it returns is rendered in the PHC string format, so it
/// parses back, and it verifies against the password it was computed from.
/// Nothing else is promised of the digest — it depends on the salt.
#[verifier::external_body]
pub fn hash_password(password: &str) -> (r: Result<String, ()>)
    ensures
        r matches Ok(h) ==> digest_parseable(h@) && password_matches(h@, password@),
{
    let salt = password_hash::SaltString::generate(&mut rand_core::OsRng);
    let argon2 = argon2::Argon2::default();
    argon2.hash_password(password.as_bytes(), &salt).map(|h| h.to_string()).map_err(|_| ())
}

/// Relies on `argon2::Argon2::verify_password` (after parsing the digest
/// with `password_hash::PasswordHash::new`): a deterministic check of the
/// digest against the password. Fails exactly when the digest string cannot
/// be parsed.
#[verifier::external_body]
pub fn verify_password(hash: &str, password: &str) -> (r: Result<bool, ()>)
    ensures
        r is Ok <==> digest_parseable(hash@),
        r matches Ok(b) ==> b == password_matches(hash@, password@),
{
    let parsed = password_hash::PasswordHash::new(hash).map_err(|_| ())?;
    Ok(argon2::Argon2::default().verify_password(password.as_bytes(), &parsed).is_ok())
}

} // verus!
