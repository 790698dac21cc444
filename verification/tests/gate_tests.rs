//! The composed request guard, end to end with real tokens.
use request_gate::errors::ApiError;
use request_gate::gate::{check_owner, parse_bearer, RequestGate};

const SECRET: &str = "guard-secret";

fn guard() -> RequestGate {
    RequestGate::new(String::from(SECRET), 1800, 3, 60)
}

fn bearer(token: &str) -> String {
    let mut h = String::from("Bearer ");
    h.push_str(token);
    h
}

fn unauthorized_msg(r: Result<request_gate::token::Claims, ApiError>) -> String {
    match r {
        Err(ApiError::Unauthorized(m)) => m,
        _ => panic!("expected an Unauthorized denial"),
    }
}

#[test]
fn issue_within_ten_minutes_then_idle_out() {
    // subject 42 logs in at t0; the issuance-side activity write is a
    // detached signal, modelled here as the separate touch it is
    let mut g = guard();
    let t0: u64 = 1_700_000_000;
    let token = g.issue(42, "alice", t0).unwrap();
    g.sessions.touch(42, t0);

    // within 10 minutes, a guarded endpoint with a 30-minute idle timeout
    let h = bearer(&token);
    let claims = g
        .gate_request(String::from("1.2.3.4"), Some(h.as_str()), t0 + 600)
        .unwrap();
    assert_eq!(claims.sub, 42);
    assert_eq!(claims.name, "alice");

    // after 31 further simulated minutes of inactivity the same call fails
    let r = g.gate_request(String::from("1.2.3.4"), Some(h.as_str()), t0 + 600 + 31 * 60);
    assert_eq!(
        unauthorized_msg(r),
        "Session expired due to inactivity (30 minutes)"
    );

    // the stale record was evicted: a retry counts as a fresh subject
    let claims = g
        .gate_request(String::from("1.2.3.4"), Some(h.as_str()), t0 + 600 + 31 * 60 + 1)
        .unwrap();
    assert_eq!(claims.sub, 42);
}

#[test]
fn rate_denial_short_circuits_before_token_work() {
    let mut g = RequestGate::new(String::from(SECRET), 1800, 1, 60);
    let now: u64 = 1_700_000_000;
    assert!(g.admit_client(String::from("9.9.9.9"), now).is_ok());
    // over budget: denied with the rate-limit error even though the header
    // is garbage — no token inspection happens
    let r = g.gate_request(String::from("9.9.9.9"), Some("garbage"), now);
    match r {
        Err(ApiError::BadRequest(m)) => assert_eq!(
            m,
            "Too many requests from 9.9.9.9. Only 1 requests per 60 seconds allowed."
        ),
        _ => panic!("expected the rate-limit denial"),
    }
}

#[test]
fn idle_denial_names_the_configured_timeout() {
    // a timeout that is not a whole number of minutes is reported in seconds
    let mut g = RequestGate::new(String::from(SECRET), 90, 3, 60);
    let t0: u64 = 1_700_000_000;
    let token = g.issue(2, "erin", t0).unwrap();
    g.sessions.touch(2, t0);
    let h = bearer(&token);
    let r = g.with_auth(Some(h.as_str()), t0 + 91);
    assert_eq!(
        unauthorized_msg(r),
        "Session expired due to inactivity (90 seconds)"
    );
}

#[test]
fn missing_header_is_unauthorized() {
    let mut g = guard();
    let r = g.with_auth(None, 1_700_000_000);
    assert_eq!(unauthorized_msg(r), "Missing Bearer token");
}

#[test]
fn non_bearer_header_is_unauthorized() {
    let mut g = guard();
    let r = g.with_auth(Some("Basic dXNlcjpwdw=="), 1_700_000_000);
    assert_eq!(unauthorized_msg(r), "Missing Bearer token");
}

#[test]
fn expired_token_and_invalid_token_are_distinguished() {
    let mut g = guard();
    let t0: u64 = 1_700_000_000;
    let token = g.issue(1, "bob", t0).unwrap();
    let h = bearer(&token);

    let r = g.with_auth(Some(h.as_str()), t0 + 24 * 60 * 60);
    assert_eq!(unauthorized_msg(r), "Token expired");

    let mut broken = bearer(&token);
    broken.pop();
    broken.push('~');
    let r = g.with_auth(Some(broken.as_str()), t0);
    assert_eq!(unauthorized_msg(r), "Token invalid");
}

#[test]
fn bearer_parsing_trims_the_token() {
    assert_eq!(parse_bearer("Bearer abc.def.ghi").unwrap(), "abc.def.ghi");
    assert_eq!(parse_bearer("Bearer   tok  ").unwrap(), "tok");
    assert_eq!(parse_bearer("Bearer ").unwrap(), "");
    assert!(parse_bearer("bearer x").is_none());
    assert!(parse_bearer("Token x").is_none());
    assert!(parse_bearer("").is_none());
}

#[test]
fn verify_token_checks_session_after_validation() {
    let mut sessions = request_gate::session::SessionTracker::new();
    let t0: u64 = 1_700_000_000;
    let token = request_gate::token::create_token(9, "dan", t0, SECRET).unwrap();
    sessions.touch(9, t0);
    assert!(
        request_gate::gate::verify_token(&mut sessions, &token, SECRET, 1800, t0 + 100).is_ok()
    );
    let r = request_gate::gate::verify_token(&mut sessions, &token, SECRET, 1800, t0 + 100 + 1801);
    match r {
        Err(ApiError::Unauthorized(m)) => {
            assert_eq!(m, "Session expired due to inactivity (30 minutes)")
        }
        _ => panic!("expected the idle-timeout denial"),
    }
}

#[test]
fn owner_check_allows_only_the_subject_itself() {
    let mut g = guard();
    let t0: u64 = 1_700_000_000;
    let token = g.issue(8, "carol", t0).unwrap();
    let h = bearer(&token);
    let claims = g.with_auth(Some(h.as_str()), t0).unwrap();
    assert!(check_owner(&claims, 8).is_ok());
    assert!(matches!(check_owner(&claims, 9), Err(ApiError::NotAllowed)));
}
