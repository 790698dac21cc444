//! Token issuance and validation against the real signing backend.
use request_gate::errors::{ApiError, TokenError};
use request_gate::token::{create_token, validate_token, TOKEN_VALIDITY_SECS};

const SECRET: &str = "test-secret";

#[test]
fn issue_then_validate_returns_same_subject() {
    let now: u64 = 1_700_000_000;
    let token = create_token(42, "alice", now, SECRET).unwrap();
    let claims = validate_token(&token, SECRET, now + 600).unwrap();
    assert_eq!(claims.sub, 42);
    assert_eq!(claims.name, "alice");
    assert_eq!(claims.exp, now + TOKEN_VALIDITY_SECS);
}

#[test]
fn issue_then_validate_keeps_non_ascii_display_name() {
    let now: u64 = 1_700_000_000;
    let name = "Тарас Шевченко — 日本語 café";
    let token = create_token(7, name, now, SECRET).unwrap();
    let claims = validate_token(&token, SECRET, now).unwrap();
    assert_eq!(claims.sub, 7);
    assert_eq!(claims.name, name);
}

#[test]
fn token_expires_strictly_after_expiry_instant() {
    let now: u64 = 1_700_000_000;
    let token = create_token(1, "bob", now, SECRET).unwrap();
    let exp = now + TOKEN_VALIDITY_SECS;
    // one second before expiry: still good
    assert!(validate_token(&token, SECRET, exp - 1).is_ok());
    // on the expiry instant and after: expired
    assert!(matches!(validate_token(&token, SECRET, exp), Err(TokenError::Expired)));
    assert!(matches!(validate_token(&token, SECRET, exp + 1), Err(TokenError::Expired)));
}

#[test]
fn tampered_signature_is_invalid() {
    let now: u64 = 1_700_000_000;
    let token = create_token(1, "bob", now, SECRET).unwrap();
    // flip the last character of the signature segment
    let mut chars: Vec<char> = token.chars().collect();
    let last = *chars.last().unwrap();
    *chars.last_mut().unwrap() = if last == 'A' { 'B' } else { 'A' };
    let tampered: String = chars.into_iter().collect();
    assert!(matches!(validate_token(&tampered, SECRET, now), Err(TokenError::Invalid)));
}

#[test]
fn wrong_secret_is_invalid() {
    let now: u64 = 1_700_000_000;
    let token = create_token(1, "bob", now, SECRET).unwrap();
    assert!(matches!(
        validate_token(&token, "another-secret", now),
        Err(TokenError::Invalid)
    ));
}

#[test]
fn garbage_token_is_invalid() {
    let now: u64 = 1_700_000_000;
    assert!(matches!(validate_token("not-a-token", SECRET, now), Err(TokenError::Invalid)));
    assert!(matches!(validate_token("", SECRET, now), Err(TokenError::Invalid)));
    assert!(matches!(validate_token("a.b.c", SECRET, now), Err(TokenError::Invalid)));
}

#[test]
fn error_statuses_are_stable() {
    assert_eq!(ApiError::BadRequest(String::from("x")).status_code(), 400);
    assert_eq!(ApiError::Unauthorized(String::from("x")).status_code(), 401);
    assert_eq!(ApiError::NotFound.status_code(), 404);
    assert_eq!(ApiError::InternalError(String::from("x")).status_code(), 500);
    assert_eq!(ApiError::UserExists.status_code(), 400);
    assert_eq!(ApiError::NotAllowed.status_code(), 403);
}

#[test]
fn error_messages_carry_detail() {
    let e = ApiError::Unauthorized(String::from("Token expired"));
    assert_eq!(e.message(), "Unauthorized: Token expired");
    assert_eq!(ApiError::NotFound.message(), "Not Found");
    assert_eq!(
        ApiError::NotAllowed.message(),
        "You can only delete your own account"
    );
}
