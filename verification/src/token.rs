//! Bearer-token codec: issues and validates signed tokens carrying
//! `{subject, display name, expiry}`.
//!
//! The compact signed-claims encoding itself (signature computation, base64
//! framing) is done by the `jsonwebtoken` crate behind two trusted wrappers;
//! what a token decodes to is named by the uninterpreted function
//! [`token_claims`]. The expiry decision is made here, in verified code,
//! against a caller-supplied clock reading: a token is unusable on or after
//! its `exp` instant.
use vstd::prelude::*;

use crate::errors::{ApiError, TokenError};

verus! {

/// Seconds a freshly issued token stays valid: 24 hours.
pub const TOKEN_VALIDITY_SECS: u64 = 24 * 60 * 60;

/// The decoded, verified payload of a bearer token.
///
/// Immutable once constructed; `exp` is seconds since the epoch.
#[derive(Debug, Clone)]
pub struct Claims {
    pub sub: i32,
    pub name: String,
    pub exp: u64,
}

/// What a token decodes to under a given signing secret:
/// `Some((subject, display name, expiry))` when the token is a well-formed
/// compact signed-claims encoding whose signature verifies under `secret`,
/// `None` otherwise. The result depends on the token and secret alone.
pub uninterp spec fn token_claims(token: Seq<char>, secret: Seq<char>) -> Option<(int, Seq<char>, int)>;

/// Relies on `jsonwebtoken::encode` with the default HS256 header: the
/// returned token is a standard compact signed-claims encoding of exactly
/// `{sub, name, exp}` under `secret`, so decoding it under the same secret
/// yields those claims back. The call cannot fail: serializing this JSON
/// object cannot fail, and HMAC signing accepts every key and message, so
/// encoding always returns a token.
#[verifier::external_body]
fn encode_claims(sub: i32, name: &str, exp: u64, secret: &str) -> (r: Result<String, ()>)
    ensures
        r is Ok,
        r matches Ok(t) ==> token_claims(t@, secret@) == Some((sub as int, name@, exp as int)),
{
    let mut m = serde_json::Map::new();
    m.insert("sub".to_string(), serde_json::Value::from(sub));
    m.insert("name".to_string(), serde_json::Value::from(name));
    m.insert("exp".to_string(), serde_json::Value::from(exp));
    let key = jsonwebtoken::EncodingKey::from_secret(secret.as_bytes());
    jsonwebtoken::encode(&jsonwebtoken::Header::default(), &serde_json::Value::Object(m), &key)
        .map_err(|_| ())
}

/// Relies on `jsonwebtoken::decode`: verifies the signature and structure of
/// the token under `secret` (HS256, the algorithm of the default validation)
/// and returns the claims it carries. Expiry checking is disabled here so the
/// clock never enters this call: the caller decides expiry itself.
#[verifier::external_body]
fn decode_claims(token: &str, secret: &str) -> (r: Result<Claims, ()>)
    ensures
        r matches Ok(c) ==> token_claims(token@, secret@) == Some((c.sub as int, c.name@, c.exp as int)),
        r is Err ==> token_claims(token@, secret@) is None,
{
    let mut v = jsonwebtoken::Validation::default();
    v.validate_exp = false;
    let key = jsonwebtoken::DecodingKey::from_secret(secret.as_bytes());
    let data = jsonwebtoken::decode::<serde_json::Value>(token, &key, &v).map_err(|_| ())?;
    let sub = data.claims.get("sub").and_then(serde_json::Value::as_i64).ok_or(())?;
    let name = data.claims.get("name").and_then(serde_json::Value::as_str).ok_or(())?;
    let exp = data.claims.get("exp").and_then(serde_json::Value::as_u64).ok_or(())?;
    Ok(Claims { sub: i32::try_from(sub).map_err(|_| ())?, name: name.to_string(), exp })
}

/// What validating `token` under `secret` at instant `now` yields: the claims
/// when the token decodes and is not yet expired, `Expired` when it decodes
/// but `now` is on or after its expiry, `Invalid` when it does not decode.
pub open spec fn spec_validate(token: Seq<char>, secret: Seq<char>, now: int) -> Result<
    (int, Seq<char>, int),
    TokenError,
> {
    match token_claims(token, secret) {
        Some(c) => if now >= c.2 {
            Err(TokenError::Expired)
        } else {
            Ok(c)
        },
        None => Err(TokenError::Invalid),
    }
}

/// Issue a token for `(user_id, username)` at instant `now`: always
/// succeeds, with the expiry at `now` plus the fixed 24-hour validity
/// window. The `Result` shape is kept for callers that treat issuance as
/// fallible, but signing a claims object under a symmetric secret is total.
pub fn create_token(user_id: i32, username: &str, now: u64, secret: &str) -> (r: Result<
    String,
    ApiError,
>)
    requires
        now + TOKEN_VALIDITY_SECS <= u64::MAX,
    ensures
        r matches Ok(t) && token_claims(t@, secret@) == Some(
            (user_id as int, username@, now + TOKEN_VALIDITY_SECS),
        ),
{
    let exp = now + TOKEN_VALIDITY_SECS;
    match encode_claims(user_id, username, exp, secret) {
        Ok(t) => Ok(t),
        Err(_) => {
            proof {
                assert(false);
            }
            Err(ApiError::InternalError("JWT creation failed".to_owned()))
        },
    }
}

/// Validate `token` under `secret` at instant `now`; the result is exactly
/// [`spec_validate`] of the inputs.
pub fn validate_token(token: &str, secret: &str, now: u64) -> (r: Result<Claims, TokenError>)
    ensures
        match r {
            Ok(c) => {
                &&& spec_validate(token@, secret@, now as int) == Ok::<
                    (int, Seq<char>, int),
                    TokenError,
                >((c.sub as int, c.name@, c.exp as int))
                &&& now < c.exp
            },
            Err(e) => spec_validate(token@, secret@, now as int) == Err::<
                (int, Seq<char>, int),
                TokenError,
            >(e),
        },
{
    match decode_claims(token, secret) {
        Err(_) => Err(TokenError::Invalid),
        Ok(c) => {
            if now >= c.exp {
                Err(TokenError::Expired)
            } else {
                Ok(c)
            }
        },
    }
}

/// Law: a token that decodes to `(sub, name, exp)` validates successfully at
/// every instant strictly before `exp`, and yields the subject and display
/// name it was issued with, unmodified.
pub proof fn lemma_issue_then_validate(
    token: Seq<char>,
    secret: Seq<char>,
    sub: int,
    name: Seq<char>,
    exp: int,
    now: int,
)
    requires
        token_claims(token, secret) == Some((sub, name, exp)),
        now < exp,
    ensures
        spec_validate(token, secret, now) == Ok::<(int, Seq<char>, int), TokenError>(
            (sub, name, exp),
        ),
{
}

/// Law: a token that decodes to expiry `exp` fails validation with `Expired`
/// at every instant on or after `exp`.
pub proof fn lemma_validate_expired(
    token: Seq<char>,
    secret: Seq<char>,
    sub: int,
    name: Seq<char>,
    exp: int,
    now: int,
)
    requires
        token_claims(token, secret) == Some((sub, name, exp)),
        now >= exp,
    ensures
        spec_validate(token, secret, now) == Err::<(int, Seq<char>, int), TokenError>(
            TokenError::Expired,
        ),
{
}

/// Law: a token that does not decode under `secret` — a tampered signature,
/// malformed structure, or wrong algorithm — fails validation with `Invalid`,
/// at every instant.
pub proof fn lemma_validate_invalid(token: Seq<char>, secret: Seq<char>, now: int)
    requires
        token_claims(token, secret) is None,
    ensures
        spec_validate(token, secret, now) == Err::<(int, Seq<char>, int), TokenError>(
            TokenError::Invalid,
        ),
{
}

} // verus!
