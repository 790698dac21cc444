//! Account-handler decisions and avatar helpers.
use request_gate::account::{delete_outcome, is_duplicate_user_code, login_with_user, require_name,
    validate_registration};
use request_gate::avatar::{avatar_filename, content_type_for, file_extension};
use request_gate::errors::ApiError;
use request_gate::password::{hash_password, verify_password};
use request_gate::token::validate_token;

const SECRET: &str = "account-secret";

#[test]
fn registration_rejects_blank_name_and_short_password() {
    match validate_registration("   ", "longenough") {
        Err(ApiError::BadRequest(m)) => assert_eq!(m, "Name cannot be empty"),
        _ => panic!("expected the blank-name rejection"),
    }
    match validate_registration("dave", "short") {
        Err(ApiError::BadRequest(m)) => assert_eq!(m, "Password must be at least 8 chars"),
        _ => panic!("expected the short-password rejection"),
    }
    assert!(validate_registration("dave", "12345678").is_ok());
}

#[test]
fn name_check_accepts_inner_whitespace() {
    assert!(require_name("a b").is_ok());
    assert!(require_name("  x  ").is_ok());
    assert!(require_name("").is_err());
    assert!(require_name(" \t\r\n").is_err());
}

#[test]
fn password_round_trip() {
    let digest = hash_password("hunter2secret").unwrap();
    assert_eq!(verify_password(&digest, "hunter2secret"), Ok(true));
    assert_eq!(verify_password(&digest, "wrong-password"), Ok(false));
    assert!(verify_password("not-a-digest", "anything").is_err());
}

#[test]
fn login_unknown_user_is_unauthorized() {
    let r = login_with_user("ghost", "pw", None, 1_700_000_000, SECRET);
    match r {
        Err(ApiError::Unauthorized(m)) => assert_eq!(m, "User not found"),
        _ => panic!("expected the unknown-user denial"),
    }
}

#[test]
fn login_wrong_password_is_unauthorized() {
    let digest = hash_password("correct-horse").unwrap();
    let r = login_with_user(
        "erin",
        "battery-staple",
        Some((3, digest)),
        1_700_000_000,
        SECRET,
    );
    match r {
        Err(ApiError::Unauthorized(m)) => assert_eq!(m, "Incorrect password"),
        _ => panic!("expected the wrong-password denial"),
    }
}

#[test]
fn login_success_returns_a_token_for_the_account() {
    let now: u64 = 1_700_000_000;
    let digest = hash_password("correct-horse").unwrap();
    let token = login_with_user("erin", "correct-horse", Some((3, digest)), now, SECRET).unwrap();
    let claims = validate_token(&token, SECRET, now).unwrap();
    assert_eq!(claims.sub, 3);
    assert_eq!(claims.name, "erin");
}

#[test]
fn login_unparsable_digest_is_internal() {
    let r = login_with_user(
        "erin",
        "pw",
        Some((3, String::from("garbage"))),
        1_700_000_000,
        SECRET,
    );
    assert!(matches!(r, Err(ApiError::InternalError(_))));
}

#[test]
fn duplicate_user_is_recognized_by_store_code() {
    assert!(is_duplicate_user_code(Some("23505")));
    assert!(!is_duplicate_user_code(Some("23503")));
    assert!(!is_duplicate_user_code(Some("2350")));
    assert!(!is_duplicate_user_code(None));
}

#[test]
fn delete_outcome_by_rows_affected() {
    assert!(delete_outcome(1).is_ok());
    assert!(delete_outcome(12).is_ok());
    assert!(matches!(delete_outcome(0), Err(ApiError::NotFound)));
}

#[test]
fn avatar_filename_is_exact() {
    assert_eq!(avatar_filename(7, 99, "png"), "user_7_99.png");
    assert_eq!(
        avatar_filename(1234, 1_700_000_000, "jpeg"),
        "user_1234_1700000000.jpeg"
    );
    assert_eq!(avatar_filename(-5, 10, "gif"), "user_-5_10.gif");
    assert_eq!(avatar_filename(0, 0, "webp"), "user_0_0.webp");
}

#[test]
fn file_extension_follows_the_last_dot() {
    assert_eq!(file_extension("photo.png").unwrap(), "png");
    assert_eq!(file_extension("archive.tar.gz").unwrap(), "gz");
    assert_eq!(file_extension("UPPER.PNG").unwrap(), "PNG");
    assert_eq!(file_extension("trailing.").unwrap(), "");
    assert!(file_extension("noext").is_none());
    assert!(file_extension(".hidden").is_none());
    assert!(file_extension("").is_none());
}

#[test]
fn content_types_match_extensions_case_insensitively() {
    assert_eq!(content_type_for("png"), "image/png");
    assert_eq!(content_type_for("PNG"), "image/png");
    assert_eq!(content_type_for("jPg"), "image/jpeg");
    assert_eq!(content_type_for("jpeg"), "image/jpeg");
    assert_eq!(content_type_for("gif"), "image/gif");
    assert_eq!(content_type_for("webp"), "image/webp");
    assert_eq!(content_type_for("pdf"), "application/octet-stream");
    assert_eq!(content_type_for(""), "application/octet-stream");
}
