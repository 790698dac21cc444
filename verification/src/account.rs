//! The decisions of the account handlers: request validation, the login
//! outcome, and the delete outcome. Storage access itself stays with the
//! caller, which hands the fetched values in as plain data.
use vstd::prelude::*;

use vstd::string::{StrSliceExecFns, StringSliceAdditionalSpecFns};

use crate::errors::{ApiError, is_bad_request, is_internal, is_unauthorized};
use crate::gate::is_ws;
use crate::password::{digest_parseable, password_matches, verify_password};
use crate::token::{TOKEN_VALIDITY_SECS, create_token, token_claims};

verus! {

/// A name that is empty or all whitespace.
pub open spec fn blank_name(name: Seq<char>) -> bool {
    forall|i: int| 0 <= i < name.len() ==> is_ws(#[trigger] name[i])
}

/// Reject an empty (or all-whitespace) account name, as both registration
/// and login do before any other work.
pub fn require_name(name: &str) -> (r: Result<(), ApiError>)
    ensures
        r is Ok <==> !blank_name(name@),
        r matches Err(e) ==> is_bad_request(&e, "Name cannot be empty"@),
{
    let n = name.unicode_len();
    let mut i: usize = 0;
    while i < n
        invariant
            i <= n,
            n == name@.len(),
            forall|k: int| 0 <= k < i ==> is_ws(#[trigger] name@[k]),
        decreases n - i,
    {
        let c = name.get_char(i);
        if !(c == ' ' || c == '\t' || c == '\r' || c == '\n') {
            return Ok(());
        }
        i += 1;
    }
    Err(ApiError::BadRequest("Name cannot be empty".to_owned()))
}

/// Validate a registration request: the name must not be blank and the
/// password must be at least 8 bytes long.
pub fn validate_registration(name: &str, password: &str) -> (r: Result<(), ApiError>)
    ensures
        blank_name(name@) ==> (r matches Err(e) && is_bad_request(&e, "Name cannot be empty"@)),
        !blank_name(name@) && password.spec_bytes().len() < 8 ==> (r matches Err(e)
            && is_bad_request(&e, "Password must be at least 8 chars"@)),
        r is Ok <==> (!blank_name(name@) && password.spec_bytes().len() >= 8),
{
    require_name(name)?;
    if password.as_bytes().len() < 8 {
        return Err(ApiError::BadRequest("Password must be at least 8 chars".to_owned()));
    }
    Ok(())
}

/// The login decision, given the stored record fetched for the presented
/// name: `user` is `Some((id, password digest))` when such an account
/// exists. Success is owed exactly when the account exists, its digest is
/// well-formed, and the password verifies; the token then carries the
/// account's id and the presented name, valid for the standard window from
/// `now`. Each denial carries its distinguishing reason.
pub fn login_with_user(
    name: &str,
    password: &str,
    user: Option<(i32, String)>,
    now: u64,
    secret: &str,
) -> (r: Result<String, ApiError>)
    requires
        now + TOKEN_VALIDITY_SECS <= u64::MAX,
    ensures
        match user {
            None => r matches Err(e) && is_unauthorized(&e, "User not found"@),
            Some(u) => {
                &&& !digest_parseable(u.1@) ==> (r matches Err(e) && is_internal(
                    &e,
                    "Password verification failed"@,
                ))
                &&& digest_parseable(u.1@) && !password_matches(u.1@, password@) ==> (r matches Err(
                    e,
                ) && is_unauthorized(&e, "Incorrect password"@))
                &&& digest_parseable(u.1@) && password_matches(u.1@, password@) ==> (r matches Ok(
                    t,
                ) && token_claims(t@, secret@) == Some(
                    (u.0 as int, name@, now + TOKEN_VALIDITY_SECS),
                ))
            },
        },
{
    let (user_id, password_hash) = match user {
        Some(u) => u,
        None => {
            return Err(ApiError::Unauthorized("User not found".to_owned()));
        },
    };
    let verified = match verify_password(password_hash.as_str(), password) {
        Ok(b) => b,
        Err(_) => {
            return Err(ApiError::InternalError("Password verification failed".to_owned()));
        },
    };
    if !verified {
        return Err(ApiError::Unauthorized("Incorrect password".to_owned()));
    }
    create_token(user_id, name, now, secret)
}

/// True exactly when a store error code names a unique-key violation
/// (code `23505`): registering a name that already exists.
pub fn is_duplicate_user_code(code: Option<&str>) -> (b: bool)
    ensures
        b == (code matches Some(c) && c@ == "23505"@),
{
    match code {
        None => false,
        Some(c) => {
            proof {
                reveal_strlit("23505");
            }
            let n = c.unicode_len();
            if n != 5 {
                return false;
            }
            let ok = c.get_char(0) == '2' && c.get_char(1) == '3' && c.get_char(2) == '5'
                && c.get_char(3) == '0' && c.get_char(4) == '5';
            proof {
                if ok {
                    assert(c@ =~= "23505"@);
                }
            }
            ok
        },
    }
}

/// The outcome of a delete, given how many rows the store reported removed:
/// zero rows means the addressed account did not exist.
pub fn delete_outcome(rows_affected: u64) -> (r: Result<(), ApiError>)
    ensures
        r is Ok <==> rows_affected > 0,
        r matches Err(e) ==> e is NotFound,
{
    if rows_affected == 0 {
        Err(ApiError::NotFound)
    } else {
        Ok(())
    }
}

} // verus!
