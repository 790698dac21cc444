//! The request guard: the single allow/deny decision run before a handler.
//!
//! Composition, not independent logic: the rate limiter admits the client
//! key first (on denial the pipeline short-circuits before any token work);
//! for protected routes the bearer token is then extracted and validated,
//! and the subject's idle-session record is checked and refreshed. Each
//! denial keeps its distinguishing reason up to the boundary.
use vstd::prelude::*;

use vstd::string::StrSliceExecFns;

use crate::decimal::{append_dec, dec_digits};
use crate::errors::{ApiError, RateLimited, SessionError, TokenError, is_bad_request,
    is_unauthorized};
use crate::rate_limit::{RateLimiter, admit_allowed, admit_step, rate_limited_message,
    rate_limited_message_of};
use crate::session::{SessionTracker, session_expired};
use crate::token::{Claims, TOKEN_VALIDITY_SECS, create_token, spec_validate, validate_token};

verus! {

/// A whitespace character as far as header trimming is concerned.
pub open spec fn is_ws(c: char) -> bool {
    c == ' ' || c == '\t' || c == '\r' || c == '\n'
}

/// `s` without its leading whitespace.
pub open spec fn trim_start_sp(s: Seq<char>) -> Seq<char>
    decreases s.len(),
{
    if s.len() > 0 && is_ws(s[0]) {
        trim_start_sp(s.drop_first())
    } else {
        s
    }
}

/// `s` without its trailing whitespace.
pub open spec fn trim_end_sp(s: Seq<char>) -> Seq<char>
    decreases s.len(),
{
    if s.len() > 0 && is_ws(s.last()) {
        trim_end_sp(s.drop_last())
    } else {
        s
    }
}

/// `s` without leading and trailing whitespace.
pub open spec fn trim_sp(s: Seq<char>) -> Seq<char> {
    trim_end_sp(trim_start_sp(s))
}

/// The token carried by an authorization header value: the part after the
/// `"Bearer "` scheme prefix, trimmed of surrounding whitespace; `None` when
/// the header does not carry that scheme.
pub open spec fn bearer_token_of(h: Seq<char>) -> Option<Seq<char>> {
    if h.len() >= 7 && h.subrange(0, 7) == "Bearer "@ {
        Some(trim_sp(h.skip(7)))
    } else {
        None
    }
}

proof fn lemma_trim_start_range(s: Seq<char>, i: int)
    requires
        0 <= i <= s.len(),
        forall|k: int| 0 <= k < i ==> is_ws(#[trigger] s[k]),
        i == s.len() || !is_ws(s[i]),
    ensures
        trim_start_sp(s) == s.skip(i),
    decreases i,
{
    if i == 0 {
        assert(s.skip(0) =~= s);
    } else {
        assert(s.drop_first() =~= s.skip(1));
        lemma_trim_start_range(s.skip(1), i - 1);
        assert(s.skip(1).skip(i - 1) =~= s.skip(i));
    }
}

proof fn lemma_trim_end_range(s: Seq<char>, j: int)
    requires
        0 <= j <= s.len(),
        forall|k: int| j <= k < s.len() ==> is_ws(#[trigger] s[k]),
        j == 0 || !is_ws(s[j - 1]),
    ensures
        trim_end_sp(s) == s.take(j),
    decreases s.len() - j,
{
    if j == s.len() {
        assert(s.take(j) =~= s);
    } else {
        assert(is_ws(s.last()));
        assert(s.drop_last() =~= s.take(s.len() - 1));
        lemma_trim_end_range(s.take(s.len() - 1), j);
        assert(s.take(s.len() - 1).take(j) =~= s.take(j));
    }
}

fn is_ws_char(c: char) -> (b: bool)
    ensures
        b == is_ws(c),
{
    c == ' ' || c == '\t' || c == '\r' || c == '\n'
}

fn has_bearer_prefix(header: &str, n: usize) -> (b: bool)
    requires
        n == header@.len(),
    ensures
        b == (header@.len() >= 7 && header@.subrange(0, 7) == "Bearer "@),
{
    if n < 7 {
        return false;
    }
    proof {
        reveal_strlit("Bearer ");
    }
    let ok = header.get_char(0) == 'B' && header.get_char(1) == 'e' && header.get_char(2) == 'a'
        && header.get_char(3) == 'r' && header.get_char(4) == 'e' && header.get_char(5) == 'r'
        && header.get_char(6) == ' ';
    proof {
        if ok {
            assert(header@.subrange(0, 7) =~= "Bearer "@);
        } else {
            assert(forall|k: int| 0 <= k < 7 ==> header@.subrange(0, 7)[k] == header@[k]);
        }
    }
    ok
}

/// Extract the bearer token from an authorization header value: the part
/// after the `"Bearer "` prefix, trimmed of surrounding whitespace. `None`
/// exactly when the header does not carry the bearer scheme.
pub fn parse_bearer(header: &str) -> (r: Option<String>)
    ensures
        match r {
            Some(t) => bearer_token_of(header@) == Some(t@),
            None => bearer_token_of(header@) is None,
        },
{
    let n = header.unicode_len();
    if !has_bearer_prefix(header, n) {
        return None;
    }
    let mut i: usize = 7;
    while i < n && is_ws_char(header.get_char(i))
        invariant
            7 <= i <= n,
            n == header@.len(),
            forall|k: int| 7 <= k < i ==> is_ws(#[trigger] header@[k]),
        decreases n - i,
    {
        i += 1;
    }
    let mut j: usize = n;
    while j > i && is_ws_char(header.get_char(j - 1))
        invariant
            i <= j <= n,
            n == header@.len(),
            forall|k: int| j <= k < n ==> is_ws(#[trigger] header@[k]),
        decreases j,
    {
        j -= 1;
    }
    let token = header.substring_char(i, j).to_owned();
    proof {
        let rest = header@.skip(7);
        assert(forall|k: int| 0 <= k < i - 7 ==> is_ws(#[trigger] rest[k]));
        lemma_trim_start_range(rest, i - 7);
        assert(rest.skip(i - 7) =~= header@.skip(i as int));
        let started = header@.skip(i as int);
        assert(forall|k: int| j - i <= k < started.len() ==> is_ws(#[trigger] started[k]));
        assert(j > i ==> started[j - i - 1] == header@[j - 1]);
        lemma_trim_end_range(started, j - i);
        assert(started.take(j - i) =~= header@.subrange(i as int, j as int));
    }
    Some(token)
}

/// The user-visible denial text for an idled-out session, naming the
/// configured timeout: in minutes when it is a whole number of minutes,
/// else in seconds.
pub open spec fn idle_timeout_message(idle_timeout: u64) -> Seq<char> {
    if idle_timeout % 60 == 0 {
        "Session expired due to inactivity ("@ + dec_digits((idle_timeout / 60) as nat)
            + " minutes)"@
    } else {
        "Session expired due to inactivity ("@ + dec_digits(idle_timeout as nat) + " seconds)"@
    }
}

fn idle_timeout_message_of(idle_timeout: u64) -> (m: String)
    ensures
        m@ == idle_timeout_message(idle_timeout),
{
    let mut m = "Session expired due to inactivity (".to_owned();
    if idle_timeout % 60 == 0 {
        append_dec(&mut m, idle_timeout / 60);
        m.append(" minutes)");
    } else {
        append_dec(&mut m, idle_timeout);
        m.append(" seconds)");
    }
    proof {
        assert(m@ =~= idle_timeout_message(idle_timeout));
    }
    m
}

/// The outcome of the authentication part of the guard for one request.
pub enum AuthDecision {
    /// Missing or malformed authorization header.
    MissingBearer,
    /// The token failed validation, expired or invalid.
    BadToken(TokenError),
    /// The token is good but the subject's session idled out.
    SessionStale(i32),
    /// Authenticated: the verified claims `(subject, display name, expiry)`.
    Granted((int, Seq<char>, int)),
}

/// The view of an optional header value.
pub open spec fn spec_header(h: Option<&str>) -> Option<Seq<char>> {
    match h {
        Some(s) => Some(s@),
        None => None,
    }
}

/// The decision on a presented token: validate it under `secret` at `now`,
/// then hold the subject's idle session against `idle_timeout`.
pub open spec fn token_decision(
    m: Map<i32, u64>,
    secret: Seq<char>,
    idle_timeout: u64,
    token: Seq<char>,
    now: u64,
) -> AuthDecision {
    match spec_validate(token, secret, now as int) {
        Err(te) => AuthDecision::BadToken(te),
        Ok(c) => if session_expired(m, c.0 as i32, now, idle_timeout) {
            AuthDecision::SessionStale(c.0 as i32)
        } else {
            AuthDecision::Granted(c)
        },
    }
}

/// The session map after a presented token was checked: a granted pass
/// records fresh activity, a stale session is evicted, a bad token leaves
/// the map untouched.
pub open spec fn token_sessions_after(
    m: Map<i32, u64>,
    secret: Seq<char>,
    idle_timeout: u64,
    token: Seq<char>,
    now: u64,
) -> Map<i32, u64> {
    match token_decision(m, secret, idle_timeout, token, now) {
        AuthDecision::Granted(c) => m.insert(c.0 as i32, now),
        AuthDecision::SessionStale(s) => m.remove(s),
        _ => m,
    }
}

/// The authentication decision of the guard, as a function of the session
/// map, signing secret, idle timeout, header value and clock reading.
pub open spec fn auth_decision(
    m: Map<i32, u64>,
    secret: Seq<char>,
    idle_timeout: u64,
    header: Option<Seq<char>>,
    now: u64,
) -> AuthDecision {
    match header {
        None => AuthDecision::MissingBearer,
        Some(h) => match bearer_token_of(h) {
            None => AuthDecision::MissingBearer,
            Some(tok) => token_decision(m, secret, idle_timeout, tok, now),
        },
    }
}

/// The session map after the authentication part of the guard ran: every
/// denial before the token reaches the session check leaves the map
/// untouched.
pub open spec fn auth_sessions_after(
    m: Map<i32, u64>,
    secret: Seq<char>,
    idle_timeout: u64,
    header: Option<Seq<char>>,
    now: u64,
) -> Map<i32, u64> {
    match header {
        None => m,
        Some(h) => match bearer_token_of(h) {
            None => m,
            Some(tok) => token_sessions_after(m, secret, idle_timeout, tok, now),
        },
    }
}

/// The process-scoped guard service: owns the session and rate-limit state
/// and its configuration, constructed once at startup and shared by
/// the request pipeline.
pub struct RequestGate {
    pub sessions: SessionTracker,
    pub limiter: RateLimiter,
    pub secret: String,
    pub idle_timeout_secs: u64,
}

impl RequestGate {
    /// Well-formedness: the rate limiter's structural invariant holds.
    pub open spec fn wf(&self) -> bool {
        self.limiter.wf()
    }

    pub fn new(secret: String, idle_timeout_secs: u64, max_requests: usize, window_secs: u64) -> (g:
        RequestGate)
        ensures
            g.wf(),
            g.sessions@ == Map::<i32, u64>::empty(),
            g.secret == secret,
            g.idle_timeout_secs == idle_timeout_secs,
            g.limiter.spec_max() == max_requests,
            g.limiter.spec_window() == window_secs,
            forall|k: Seq<char>| g.limiter.spec_stamps(k) == Seq::<u64>::empty(),
    {
        RequestGate {
            sessions: SessionTracker::new(),
            limiter: RateLimiter::new(max_requests, window_secs),
            secret,
            idle_timeout_secs,
        }
    }

    /// Issue a token for `(user_id, username)` under this guard's secret;
    /// issuance always succeeds.
    ///
    /// The activity record for `user_id` is deliberately not written here:
    /// issuance signals the session tracker through a detached write the
    /// caller runs separately (`sessions.touch`), with no completion signal.
    pub fn issue(&self, user_id: i32, username: &str, now: u64) -> (r: Result<String, ApiError>)
        requires
            now + TOKEN_VALIDITY_SECS <= u64::MAX,
        ensures
            r matches Ok(t) && crate::token::token_claims(t@, self.secret@) == Some(
                (user_id as int, username@, now + TOKEN_VALIDITY_SECS),
            ),
    {
        create_token(user_id, username, now, self.secret.as_str())
    }

    /// Rate-limit step of the guard: admit one request from `client_key`, or
    /// deny it with the rate-limit error, leaving everything else untouched.
    pub fn admit_client(&mut self, client_key: String, now: u64) -> (r: Result<(), ApiError>)
        requires
            old(self).wf(),
        ensures
            final(self).wf(),
            final(self).sessions == old(self).sessions,
            final(self).secret == old(self).secret,
            final(self).idle_timeout_secs == old(self).idle_timeout_secs,
            final(self).limiter.spec_max() == old(self).limiter.spec_max(),
            final(self).limiter.spec_window() == old(self).limiter.spec_window(),
            final(self).limiter.spec_stamps(client_key@) == admit_step(
                old(self).limiter.spec_stamps(client_key@),
                now,
                old(self).limiter.spec_window(),
                old(self).limiter.spec_max(),
            ),
            forall|k: Seq<char>|
                k != client_key@ ==> final(self).limiter.spec_stamps(k) == old(
                    self,
                ).limiter.spec_stamps(k),
            r is Ok <==> admit_allowed(
                old(self).limiter.spec_stamps(client_key@),
                now,
                old(self).limiter.spec_window(),
                old(self).limiter.spec_max(),
            ),
            r matches Err(e) ==> is_bad_request(
                &e,
                rate_limited_message(
                    client_key@,
                    old(self).limiter.spec_max(),
                    old(self).limiter.spec_window() as int,
                ),
            ),
    {
        let max = self.limiter.max_requests();
        let window = self.limiter.window_secs();
        let key_text = client_key.clone();
        match self.limiter.check(client_key, now) {
            Ok(()) => Ok(()),
            Err(RateLimited::TooManyRequests) => Err(
                ApiError::BadRequest(rate_limited_message_of(key_text.as_str(), max, window)),
            ),
        }
    }

    /// Authentication step of the guard: delegates to [`authenticate`] with
    /// this guard's secret and idle timeout.
    pub fn with_auth(&mut self, auth_header: Option<&str>, now: u64) -> (r: Result<Claims, ApiError>)
        requires
            old(self).wf(),
        ensures
            final(self).wf(),
            final(self).limiter == old(self).limiter,
            final(self).secret == old(self).secret,
            final(self).idle_timeout_secs == old(self).idle_timeout_secs,
            final(self).sessions@ == auth_sessions_after(
                old(self).sessions@,
                old(self).secret@,
                old(self).idle_timeout_secs,
                spec_header(auth_header),
                now,
            ),
            match auth_decision(
                old(self).sessions@,
                old(self).secret@,
                old(self).idle_timeout_secs,
                spec_header(auth_header),
                now,
            ) {
                AuthDecision::MissingBearer => r matches Err(e) && is_unauthorized(
                    &e,
                    "Missing Bearer token"@,
                ),
                AuthDecision::BadToken(TokenError::Expired) => r matches Err(e) && is_unauthorized(
                    &e,
                    "Token expired"@,
                ),
                AuthDecision::BadToken(TokenError::Invalid) => r matches Err(e) && is_unauthorized(
                    &e,
                    "Token invalid"@,
                ),
                AuthDecision::SessionStale(_) => r matches Err(e) && is_unauthorized(
                    &e,
                    idle_timeout_message(old(self).idle_timeout_secs),
                ),
                AuthDecision::Granted(c) => r matches Ok(claims) && claims.sub as int == c.0
                    && claims.name@ == c.1 && claims.exp as int == c.2,
            },
    {
        let secret = self.secret.clone();
        authenticate(&mut self.sessions, secret.as_str(), self.idle_timeout_secs, auth_header, now)
    }

    /// The whole protected-route guard: rate limit first (a denial
    /// short-circuits before any token work), then authentication.
    pub fn gate_request(
        &mut self,
        client_key: String,
        auth_header: Option<&str>,
        now: u64,
    ) -> (r: Result<Claims, ApiError>)
        requires
            old(self).wf(),
        ensures
            final(self).wf(),
            final(self).secret == old(self).secret,
            final(self).idle_timeout_secs == old(self).idle_timeout_secs,
            final(self).limiter.spec_max() == old(self).limiter.spec_max(),
            final(self).limiter.spec_window() == old(self).limiter.spec_window(),
            final(self).limiter.spec_stamps(client_key@) == admit_step(
                old(self).limiter.spec_stamps(client_key@),
                now,
                old(self).limiter.spec_window(),
                old(self).limiter.spec_max(),
            ),
            forall|k: Seq<char>|
                k != client_key@ ==> final(self).limiter.spec_stamps(k) == old(
                    self,
                ).limiter.spec_stamps(k),
            !admit_allowed(
                old(self).limiter.spec_stamps(client_key@),
                now,
                old(self).limiter.spec_window(),
                old(self).limiter.spec_max(),
            ) ==> {
                &&& r matches Err(e) && is_bad_request(
                    &e,
                    rate_limited_message(
                        client_key@,
                        old(self).limiter.spec_max(),
                        old(self).limiter.spec_window() as int,
                    ),
                )
                &&& final(self).sessions@ == old(self).sessions@
            },
            admit_allowed(
                old(self).limiter.spec_stamps(client_key@),
                now,
                old(self).limiter.spec_window(),
                old(self).limiter.spec_max(),
            ) ==> {
                &&& final(self).sessions@ == auth_sessions_after(
                    old(self).sessions@,
                    old(self).secret@,
                    old(self).idle_timeout_secs,
                    spec_header(auth_header),
                    now,
                )
                &&& match auth_decision(
                    old(self).sessions@,
                    old(self).secret@,
                    old(self).idle_timeout_secs,
                    spec_header(auth_header),
                    now,
                ) {
                    AuthDecision::MissingBearer => r matches Err(e) && is_unauthorized(
                        &e,
                        "Missing Bearer token"@,
                    ),
                    AuthDecision::BadToken(TokenError::Expired) => r matches Err(e)
                        && is_unauthorized(&e, "Token expired"@),
                    AuthDecision::BadToken(TokenError::Invalid) => r matches Err(e)
                        && is_unauthorized(&e, "Token invalid"@),
                    AuthDecision::SessionStale(_) => r matches Err(e) && is_unauthorized(
                        &e,
                        idle_timeout_message(old(self).idle_timeout_secs),
                    ),
                    AuthDecision::Granted(c) => r matches Ok(claims) && claims.sub as int == c.0
                        && claims.name@ == c.1 && claims.exp as int == c.2,
                }
            },
    {
        match self.admit_client(client_key, now) {
            Err(e) => Err(e),
            Ok(()) => self.with_auth(auth_header, now),
        }
    }
}

/// Authenticate one request against the session state: extract the bearer
/// token, validate it under `secret` at instant `now`, and check and
/// refresh the subject's idle session. The result and the new session state
/// are exactly [`auth_decision`] and [`auth_sessions_after`] of the inputs;
/// each denial carries its distinguishing message.
///
/// A caller that keeps the session tracker behind its own lock runs this
/// under that lock; nothing else is read or written.
pub fn authenticate(
    sessions: &mut SessionTracker,
    secret: &str,
    idle_timeout: u64,
    auth_header: Option<&str>,
    now: u64,
) -> (r: Result<Claims, ApiError>)
    ensures
        final(sessions)@ == auth_sessions_after(
            old(sessions)@,
            secret@,
            idle_timeout,
            spec_header(auth_header),
            now,
        ),
        match auth_decision(old(sessions)@, secret@, idle_timeout, spec_header(auth_header), now) {
            AuthDecision::MissingBearer => r matches Err(e) && is_unauthorized(
                &e,
                "Missing Bearer token"@,
            ),
            AuthDecision::BadToken(TokenError::Expired) => r matches Err(e) && is_unauthorized(
                &e,
                "Token expired"@,
            ),
            AuthDecision::BadToken(TokenError::Invalid) => r matches Err(e) && is_unauthorized(
                &e,
                "Token invalid"@,
            ),
            AuthDecision::SessionStale(_) => r matches Err(e) && is_unauthorized(
                &e,
                idle_timeout_message(idle_timeout),
            ),
            AuthDecision::Granted(c) => r matches Ok(claims) && claims.sub as int == c.0
                && claims.name@ == c.1 && claims.exp as int == c.2,
        },
{
    let header = match auth_header {
        Some(h) => h,
        None => {
            return Err(ApiError::Unauthorized("Missing Bearer token".to_owned()));
        },
    };
    let token = match parse_bearer(header) {
        Some(t) => t,
        None => {
            return Err(ApiError::Unauthorized("Missing Bearer token".to_owned()));
        },
    };
    verify_token(sessions, token.as_str(), secret, idle_timeout, now)
}

/// Validate a presented token and hold its subject's idle session against
/// the timeout, refreshing it on success; the expiry, invalidity and
/// idle-timeout denials stay distinguishable. The result and the new
/// session state are exactly [`token_decision`] and
/// [`token_sessions_after`] of the inputs.
pub fn verify_token(
    sessions: &mut SessionTracker,
    token: &str,
    secret: &str,
    idle_timeout: u64,
    now: u64,
) -> (r: Result<Claims, ApiError>)
    ensures
        final(sessions)@ == token_sessions_after(old(sessions)@, secret@, idle_timeout, token@, now),
        match token_decision(old(sessions)@, secret@, idle_timeout, token@, now) {
            AuthDecision::MissingBearer => false,
            AuthDecision::BadToken(TokenError::Expired) => r matches Err(e) && is_unauthorized(
                &e,
                "Token expired"@,
            ),
            AuthDecision::BadToken(TokenError::Invalid) => r matches Err(e) && is_unauthorized(
                &e,
                "Token invalid"@,
            ),
            AuthDecision::SessionStale(_) => r matches Err(e) && is_unauthorized(
                &e,
                idle_timeout_message(idle_timeout),
            ),
            AuthDecision::Granted(c) => r matches Ok(claims) && claims.sub as int == c.0
                && claims.name@ == c.1 && claims.exp as int == c.2,
        },
{
    let claims = match validate_token(token, secret, now) {
        Ok(c) => c,
        Err(TokenError::Expired) => {
            return Err(ApiError::Unauthorized("Token expired".to_owned()));
        },
        Err(TokenError::Invalid) => {
            return Err(ApiError::Unauthorized("Token invalid".to_owned()));
        },
    };
    match sessions.check_and_refresh(claims.sub, now, idle_timeout) {
        Err(SessionError::Expired) => Err(
            ApiError::Unauthorized(idle_timeout_message_of(idle_timeout)),
        ),
        Ok(()) => {
            sessions.touch(claims.sub, now);
            proof {
                assert(sessions@ =~= old(sessions)@.insert(claims.sub, now));
            }
            Ok(claims)
        },
    }
}

/// Ownership check for routes where a subject may act on their own resource
/// only: passes exactly when the authenticated subject is the addressed one.
pub fn check_owner(claims: &Claims, id: i32) -> (r: Result<(), ApiError>)
    ensures
        r is Ok <==> claims.sub == id,
        r matches Err(e) ==> e is NotAllowed,
{
    if claims.sub == id {
        Ok(())
    } else {
        Err(ApiError::NotAllowed)
    }
}

} // verus!
