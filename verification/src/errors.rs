//! Error taxonomy of the request guard.
//!
//! `ApiError` is the boundary type handed to the routing layer; each variant
//! maps to one stable HTTP-equivalent status code. The finer-grained kinds
//! (`TokenError`, `SessionError`, `RateLimited`) keep the distinct denial
//! reasons machine-distinguishable before they are folded into `ApiError`.
use vstd::prelude::*;

verus! {

/// Boundary error type: every denial of the guard is one of these.
#[derive(Debug, Clone)]
pub enum ApiError {
    BadRequest(String),
    Unauthorized(String),
    NotFound,
    InternalError(String),
    UserExists,
    NotAllowed,
}

impl ApiError {
    /// The HTTP-equivalent status classification of this error.
    pub open spec fn spec_status_code(&self) -> u16 {
        match self {
            ApiError::BadRequest(_) => 400,
            ApiError::Unauthorized(_) => 401,
            ApiError::NotFound => 404,
            ApiError::InternalError(_) => 500,
            ApiError::UserExists => 400,
            ApiError::NotAllowed => 403,
        }
    }

    pub fn status_code(&self) -> (code: u16)
        ensures
            code == self.spec_status_code(),
    {
        match self {
            ApiError::BadRequest(_) => 400,
            ApiError::Unauthorized(_) => 401,
            ApiError::NotFound => 404,
            ApiError::InternalError(_) => 500,
            ApiError::UserExists => 400,
            ApiError::NotAllowed => 403,
        }
    }

    /// The user-visible message of this error: a fixed prefix per variant,
    /// followed by the detail string where the variant carries one.
    pub open spec fn spec_message(&self) -> Seq<char> {
        match self {
            ApiError::BadRequest(s) => "Bad Request: "@ + s@,
            ApiError::Unauthorized(s) => "Unauthorized: "@ + s@,
            ApiError::NotFound => "Not Found"@,
            ApiError::InternalError(s) => "Internal Server Error: "@ + s@,
            ApiError::UserExists => "User already exists"@,
            ApiError::NotAllowed => "You can only delete your own account"@,
        }
    }

    pub fn message(&self) -> (m: String)
        ensures
            m@ == self.spec_message(),
    {
        match self {
            ApiError::BadRequest(s) => concat_msg("Bad Request: ", s),
            ApiError::Unauthorized(s) => concat_msg("Unauthorized: ", s),
            ApiError::NotFound => "Not Found".to_owned(),
            ApiError::InternalError(s) => concat_msg("Internal Server Error: ", s),
            ApiError::UserExists => "User already exists".to_owned(),
            ApiError::NotAllowed => "You can only delete your own account".to_owned(),
        }
    }
}

/// True when `e` is `Unauthorized` carrying exactly the message `msg`.
pub open spec fn is_unauthorized(e: &ApiError, msg: Seq<char>) -> bool {
    &&& e matches ApiError::Unauthorized(m)
    &&& m@ == msg
}

/// True when `e` is `BadRequest` carrying exactly the message `msg`.
pub open spec fn is_bad_request(e: &ApiError, msg: Seq<char>) -> bool {
    &&& e matches ApiError::BadRequest(m)
    &&& m@ == msg
}

/// True when `e` is `InternalError` carrying exactly the message `msg`.
pub open spec fn is_internal(e: &ApiError, msg: Seq<char>) -> bool {
    &&& e matches ApiError::InternalError(m)
    &&& m@ == msg
}

fn concat_msg(prefix: &str, detail: &String) -> (m: String)
    ensures
        m@ == prefix@ + detail@,
{
    let mut m = prefix.to_owned();
    m.append(detail.as_str());
    m
}

/// Outcome kinds of token validation, kept distinct so callers can present
/// different user-facing messages for an expired versus a malformed token.
#[derive(Debug, Clone, Copy, PartialEq, Eq, Structural)]
pub enum TokenError {
    /// Signature is valid but `exp` has passed.
    Expired,
    /// Bad signature, malformed structure, or wrong algorithm.
    Invalid,
}

/// Denial from the idle-session check.
#[derive(Debug, Clone, Copy, PartialEq, Eq, Structural)]
pub enum SessionError {
    /// The subject's last activity is older than the idle timeout.
    Expired,
}

/// Denial from the rate limiter: the client exceeded its request budget.
#[derive(Debug, Clone, Copy, PartialEq, Eq, Structural)]
pub enum RateLimited {
    TooManyRequests,
}

} // verus!
