//! Idle-session tracking: last-seen timestamps per subject, with lazy
//! eviction on timeout.
//!
//! A record is created or refreshed by [`SessionTracker::touch`]; the
//! idle-timeout policy is enforced by [`SessionTracker::check_and_refresh`].
//! A subject with no record passes the check unchanged — no prior record
//! means no timeout to violate — and a stale record is evicted exactly when
//! it is next looked up, never by a background sweep.
use vstd::prelude::*;

use std::collections::HashMap;

use crate::errors::SessionError;

verus! {

broadcast use vstd::std_specs::hash::group_hash_axioms;

/// Default idle timeout: 30 minutes without activity ends the session.
pub const DEFAULT_SESSION_TIMEOUT_SECS: u64 = 30 * 60;

/// True when the record for `subject` in `m` exists and its last activity
/// lies more than `idle_timeout` seconds before `now`.
pub open spec fn session_expired(m: Map<i32, u64>, subject: i32, now: u64, idle_timeout: u64) -> bool {
    m.contains_key(subject) && now - m[subject] > idle_timeout
}

/// The tracker state after one `check_and_refresh(subject)` at instant `now`:
/// a stale record is evicted, a fresh one is refreshed to `now`, and an
/// absent one stays absent.
pub open spec fn session_step(m: Map<i32, u64>, subject: i32, now: u64, idle_timeout: u64) -> Map<
    i32,
    u64,
> {
    if session_expired(m, subject, now, idle_timeout) {
        m.remove(subject)
    } else if m.contains_key(subject) {
        m.insert(subject, now)
    } else {
        m
    }
}

/// Last-seen timestamps per subject, process-lifetime only.
pub struct SessionTracker {
    last_activity: HashMap<i32, u64>,
}

impl View for SessionTracker {
    type V = Map<i32, u64>;

    closed spec fn view(&self) -> Map<i32, u64> {
        self.last_activity@
    }
}

impl SessionTracker {
    /// A tracker with no records: no subject has authenticated yet.
    pub fn new() -> (t: SessionTracker)
        ensures
            t@ == Map::<i32, u64>::empty(),
    {
        SessionTracker { last_activity: HashMap::new() }
    }

    /// Unconditionally record `now` as the last activity of `subject`,
    /// creating the record if absent.
    pub fn touch(&mut self, subject: i32, now: u64)
        ensures
            final(self)@ == old(self)@.insert(subject, now),
    {
        self.last_activity.insert(subject, now);
    }

    /// Enforce the idle-timeout policy for `subject` at instant `now`.
    ///
    /// Fails exactly when a record exists and is stale, and then evicts it;
    /// a live record is refreshed to `now`; an absent record passes with the
    /// tracker unchanged (the caller must `touch` to establish one).
    pub fn check_and_refresh(&mut self, subject: i32, now: u64, idle_timeout: u64) -> (r: Result<
        (),
        SessionError,
    >)
        ensures
            final(self)@ == session_step(old(self)@, subject, now, idle_timeout),
            r is Err <==> session_expired(old(self)@, subject, now, idle_timeout),
    {
        let (had, last): (bool, u64) = match self.last_activity.get(&subject) {
            Some(l) => (true, *l),
            None => (false, 0),
        };
        if had {
            if now > last && now - last > idle_timeout {
                self.last_activity.remove(&subject);
                Err(SessionError::Expired)
            } else {
                self.last_activity.insert(subject, now);
                Ok(())
            }
        } else {
            Ok(())
        }
    }
}

/// Law: with idle timeout `idle_timeout`, a subject whose last recorded
/// activity lies more than `idle_timeout` seconds before `now` fails the
/// check and its record is evicted; a later check for the same subject at
/// any instant, absent a new `touch`, is treated as a fresh (no-record)
/// subject: it passes and leaves the tracker unchanged.
pub proof fn lemma_stale_session_then_fresh(
    m: Map<i32, u64>,
    subject: i32,
    now: u64,
    now2: u64,
    idle_timeout: u64,
)
    requires
        m.contains_key(subject),
        now - m[subject] > idle_timeout,
    ensures
        session_expired(m, subject, now, idle_timeout),
        !session_expired(session_step(m, subject, now, idle_timeout), subject, now2, idle_timeout),
        session_step(session_step(m, subject, now, idle_timeout), subject, now2, idle_timeout)
            == session_step(m, subject, now, idle_timeout),
{
}

} // verus!
