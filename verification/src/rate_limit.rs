//! Per-client request-rate limiting under a sliding-window policy.
//!
//! For each client key the limiter keeps the timestamps of recently admitted
//! requests. On every admission check the timestamps older than the trailing
//! window are pruned; the request is admitted exactly when the remaining
//! count is below the configured budget, and then its own timestamp is
//! recorded. The external contract is: no more than `max_requests` admitted
//! requests per client key per trailing `window_secs` seconds.
//!
//! Budget and window are configuration, not constants; the defaults mirror
//! the observed policy (3 requests per 60 seconds).
use vstd::prelude::*;

use crate::decimal::{append_dec, dec_digits};
use crate::errors::RateLimited;

verus! {

/// The user-visible denial text of the rate limiter, carrying the client
/// key and the configured budget and window.
pub open spec fn rate_limited_message(ip: Seq<char>, max: int, window: int) -> Seq<char> {
    "Too many requests from "@ + ip + ". Only "@ + dec_digits(max as nat) + " requests per "@
        + dec_digits(window as nat) + " seconds allowed."@
}

/// Build the rate-limit denial text for one client key under the given
/// configuration.
pub fn rate_limited_message_of(ip: &str, max: usize, window: u64) -> (m: String)
    ensures
        m@ == rate_limited_message(ip@, max as int, window as int),
{
    let mut m = "Too many requests from ".to_owned();
    m.append(ip);
    m.append(". Only ");
    append_dec(&mut m, max as u64);
    m.append(" requests per ");
    append_dec(&mut m, window);
    m.append(" seconds allowed.");
    proof {
        assert(m@ =~= rate_limited_message(ip@, max as int, window as int));
    }
    m
}

/// Default request budget per window.
pub const DEFAULT_MAX_REQUESTS: usize = 3;

/// Default window length in seconds.
pub const DEFAULT_WINDOW_SECS: u64 = 60;

/// True when a request stamped `t` still lies within the trailing window
/// `[now - window, ..]`.
pub open spec fn in_window(t: u64, now: u64, window: u64) -> bool {
    t >= now - window
}

/// The suffix of `stamps` from index `i` on, restricted to the stamps still
/// inside the trailing window.
pub open spec fn keep_from(stamps: Seq<u64>, now: u64, window: u64, i: int) -> Seq<u64>
    decreases stamps.len() - i,
{
    if i < 0 || i >= stamps.len() {
        Seq::empty()
    } else if in_window(stamps[i], now, window) {
        seq![stamps[i]] + keep_from(stamps, now, window, i + 1)
    } else {
        keep_from(stamps, now, window, i + 1)
    }
}

/// The stamps of `stamps` still inside the trailing window, in order.
pub open spec fn keep_recent(stamps: Seq<u64>, now: u64, window: u64) -> Seq<u64> {
    keep_from(stamps, now, window, 0)
}

/// True when a request at instant `now` is admitted against the recorded
/// `stamps`: the in-window count is below the budget `max`.
pub open spec fn admit_allowed(stamps: Seq<u64>, now: u64, window: u64, max: int) -> bool {
    keep_recent(stamps, now, window).len() < max
}

/// The recorded stamps after one admission check at instant `now`: stale
/// stamps are pruned either way, and the new stamp is recorded exactly when
/// the request is admitted.
pub open spec fn admit_step(stamps: Seq<u64>, now: u64, window: u64, max: int) -> Seq<u64> {
    if admit_allowed(stamps, now, window, max) {
        keep_recent(stamps, now, window).push(now)
    } else {
        keep_recent(stamps, now, window)
    }
}

/// One client key's recorded request timestamps.
pub struct RateEntry {
    pub key: String,
    pub stamps: Vec<u64>,
}

/// First-match lookup of a key's stamps in the entry list; a key without an
/// entry has no recorded stamps.
pub open spec fn stamps_of(entries: Seq<RateEntry>, k: Seq<char>) -> Seq<u64>
    decreases entries.len(),
{
    if entries.len() == 0 {
        Seq::empty()
    } else if entries[0].key@ == k {
        entries[0].stamps@
    } else {
        stamps_of(entries.drop_first(), k)
    }
}

/// No two entries share a key.
pub open spec fn distinct_keys(entries: Seq<RateEntry>) -> bool {
    forall|i: int, j: int|
        0 <= i < j < entries.len() ==> (#[trigger] entries[i].key@) != (#[trigger] entries[j].key@)
}

proof fn lemma_stamps_at_index(entries: Seq<RateEntry>, k: Seq<char>, i: int)
    requires
        0 <= i < entries.len(),
        entries[i].key@ == k,
        forall|j: int| 0 <= j < i ==> (#[trigger] entries[j].key@) != k,
    ensures
        stamps_of(entries, k) == entries[i].stamps@,
    decreases i,
{
    if i > 0 {
        lemma_stamps_at_index(entries.drop_first(), k, i - 1);
    }
}

proof fn lemma_stamps_absent(entries: Seq<RateEntry>, k: Seq<char>)
    requires
        forall|j: int| 0 <= j < entries.len() ==> (#[trigger] entries[j].key@) != k,
    ensures
        stamps_of(entries, k) == Seq::<u64>::empty(),
    decreases entries.len(),
{
    if entries.len() > 0 {
        lemma_stamps_absent(entries.drop_first(), k);
    }
}

proof fn lemma_stamps_update_other(entries: Seq<RateEntry>, i: int, e: RateEntry, k: Seq<char>)
    requires
        0 <= i < entries.len(),
        e.key@ == entries[i].key@,
        k != entries[i].key@,
    ensures
        stamps_of(entries.update(i, e), k) == stamps_of(entries, k),
    decreases entries.len(),
{
    let updated = entries.update(i, e);
    if i == 0 {
        assert(updated.drop_first() =~= entries.drop_first());
    } else {
        assert(updated.drop_first() =~= entries.drop_first().update(i - 1, e));
        lemma_stamps_update_other(entries.drop_first(), i - 1, e, k);
    }
}

proof fn lemma_stamps_push_other(entries: Seq<RateEntry>, e: RateEntry, k: Seq<char>)
    requires
        k != e.key@,
    ensures
        stamps_of(entries.push(e), k) == stamps_of(entries, k),
    decreases entries.len(),
{
    let pushed = entries.push(e);
    assert(pushed.len() == entries.len() + 1);
    if entries.len() == 0 {
        assert(pushed[0] == e);
        assert(pushed.drop_first() =~= Seq::<RateEntry>::empty());
        assert(stamps_of(pushed, k) == stamps_of(pushed.drop_first(), k));
    } else {
        assert(pushed[0] == entries[0]);
        assert(pushed.drop_first() =~= entries.drop_first().push(e));
        lemma_stamps_push_other(entries.drop_first(), e, k);
        if entries[0].key@ == k {
            assert(stamps_of(pushed, k) == pushed[0].stamps@);
        } else {
            assert(stamps_of(pushed, k) == stamps_of(pushed.drop_first(), k));
        }
    }
}

/// Process-wide sliding-window rate limiter, keyed by client identifier.
pub struct RateLimiter {
    max_requests: usize,
    window_secs: u64,
    entries: Vec<RateEntry>,
}

impl RateLimiter {
    /// The configured request budget per window.
    pub closed spec fn spec_max(&self) -> int {
        self.max_requests as int
    }

    /// The configured window length in seconds.
    pub closed spec fn spec_window(&self) -> u64 {
        self.window_secs
    }

    /// The stamps recorded for client key `k` (empty when the key has never
    /// been admitted or all its stamps were pruned away).
    pub closed spec fn spec_stamps(&self, k: Seq<char>) -> Seq<u64> {
        stamps_of(self.entries@, k)
    }

    /// Structural invariant: one entry per client key.
    pub closed spec fn wf(&self) -> bool {
        distinct_keys(self.entries@)
    }

    /// The configured request budget per window, as an executable value.
    pub fn max_requests(&self) -> (r: usize)
        ensures
            r as int == self.spec_max(),
    {
        self.max_requests
    }

    /// The configured window length in seconds, as an executable value.
    pub fn window_secs(&self) -> (r: u64)
        ensures
            r == self.spec_window(),
    {
        self.window_secs
    }

    /// A limiter with the given budget and window and no recorded requests.
    pub fn new(max_requests: usize, window_secs: u64) -> (l: RateLimiter)
        ensures
            l.wf(),
            l.spec_max() == max_requests,
            l.spec_window() == window_secs,
            forall|k: Seq<char>| l.spec_stamps(k) == Seq::<u64>::empty(),
    {
        RateLimiter { max_requests, window_secs, entries: Vec::new() }
    }

    /// Admission check for one request from client `ip` at instant `now`.
    ///
    /// Stale stamps of `ip` are pruned; the request is admitted exactly when
    /// the remaining in-window count is below the budget, and its stamp is
    /// then recorded. No other client's state changes.
    pub fn check(&mut self, ip: String, now: u64) -> (r: Result<(), RateLimited>)
        requires
            old(self).wf(),
        ensures
            final(self).wf(),
            final(self).spec_max() == old(self).spec_max(),
            final(self).spec_window() == old(self).spec_window(),
            final(self).spec_stamps(ip@) == admit_step(
                old(self).spec_stamps(ip@),
                now,
                old(self).spec_window(),
                old(self).spec_max(),
            ),
            forall|k: Seq<char>|
                k != ip@ ==> final(self).spec_stamps(k) == old(self).spec_stamps(k),
            r is Ok <==> admit_allowed(
                old(self).spec_stamps(ip@),
                now,
                old(self).spec_window(),
                old(self).spec_max(),
            ),
    {
        let window = self.window_secs;
        let max = self.max_requests;
        match find_entry(&self.entries, &ip) {
            Some(i) => {
                let ghost old_entries = self.entries@;
                proof {
                    lemma_stamps_at_index(old_entries, ip@, i as int);
                }
                let mut e = self.entries.remove(i);
                let verdict = admit_window(&mut e.stamps, now, window, max);
                let allowed = verdict.is_ok();
                self.entries.insert(i, e);
                proof {
                    assert(self.entries@ =~= old_entries.update(i as int, e));
                    assert forall|k: Seq<char>| k != ip@ implies stamps_of(
                        self.entries@,
                        k,
                    ) == stamps_of(old_entries, k) by {
                        lemma_stamps_update_other(old_entries, i as int, e, k);
                    }
                    lemma_stamps_at_index(self.entries@, ip@, i as int);
                }
                if allowed {
                    Ok(())
                } else {
                    Err(RateLimited::TooManyRequests)
                }
            },
            None => {
                proof {
                    lemma_stamps_absent(self.entries@, ip@);
                }
                let ghost old_entries = self.entries@;
                let mut stamps: Vec<u64> = Vec::new();
                let verdict = admit_window(&mut stamps, now, window, max);
                let e = RateEntry { key: ip, stamps };
                self.entries.push(e);
                proof {
                    assert forall|k: Seq<char>| k != e.key@ implies stamps_of(
                        self.entries@,
                        k,
                    ) == stamps_of(old_entries, k) by {
                        lemma_stamps_push_other(old_entries, e, k);
                    }
                    lemma_stamps_at_index(self.entries@, e.key@, old_entries.len() as int);
                }
                verdict
            },
        }
    }
}

/// One key's admission step, on that key's recorded stamps alone: prune the
/// stamps that aged out of the trailing window, admit exactly when the
/// remaining count is below the budget `max`, and record the new stamp on
/// admission. This is the per-key core behind [`RateLimiter::check`]; a
/// caller that shards its keys runs it under each key's own lock.
pub fn admit_window(stamps: &mut Vec<u64>, now: u64, window: u64, max: usize) -> (r: Result<
    (),
    RateLimited,
>)
    ensures
        final(stamps)@ == admit_step(old(stamps)@, now, window, max as int),
        r is Ok <==> admit_allowed(old(stamps)@, now, window, max as int),
{
    let mut kept = prune(stamps, now, window);
    let allowed = kept.len() < max;
    if allowed {
        kept.push(now);
    }
    *stamps = kept;
    if allowed {
        Ok(())
    } else {
        Err(RateLimited::TooManyRequests)
    }
}

fn find_entry(entries: &Vec<RateEntry>, key: &String) -> (r: Option<usize>)
    ensures
        match r {
            Some(i) => {
                &&& i < entries@.len()
                &&& entries@[i as int].key@ == key@
                &&& forall|j: int| 0 <= j < i ==> (#[trigger] entries@[j].key@) != key@
            },
            None => forall|j: int| 0 <= j < entries@.len() ==> (#[trigger] entries@[j].key@) != key@,
        },
{
    let mut i: usize = 0;
    while i < entries.len()
        invariant
            i <= entries@.len(),
            forall|j: int| 0 <= j < i ==> (#[trigger] entries@[j].key@) != key@,
        decreases entries@.len() - i,
    {
        if entries[i].key == *key {
            return Some(i);
        }
        i += 1;
    }
    None
}

fn prune(stamps: &Vec<u64>, now: u64, window: u64) -> (kept: Vec<u64>)
    ensures
        kept@ == keep_recent(stamps@, now, window),
{
    let window_start = if now >= window {
        now - window
    } else {
        0
    };
    let mut kept: Vec<u64> = Vec::new();
    let mut i: usize = 0;
    while i < stamps.len()
        invariant
            i <= stamps@.len(),
            kept@ + keep_from(stamps@, now, window, i as int) == keep_recent(stamps@, now, window),
            window_start == (if now >= window { now - window } else { 0 }),
        decreases stamps@.len() - i,
    {
        let t = stamps[i];
        if t >= window_start {
            let ghost prev = kept@;
            kept.push(t);
            proof {
                assert(kept@ + keep_from(stamps@, now, window, i + 1) =~= prev + keep_from(
                    stamps@,
                    now,
                    window,
                    i as int,
                ));
            }
        }
        i += 1;
    }
    proof {
        assert(kept@ + keep_from(stamps@, now, window, i as int) =~= kept@);
    }
    kept
}

proof fn lemma_keep_from_elems(stamps: Seq<u64>, now: u64, window: u64, j: int)
    ensures
        forall|i: int|
            0 <= i < keep_from(stamps, now, window, j).len() ==> in_window(
                #[trigger] keep_from(stamps, now, window, j)[i],
                now,
                window,
            ),
    decreases stamps.len() - j,
{
    if 0 <= j < stamps.len() {
        lemma_keep_from_elems(stamps, now, window, j + 1);
        let kj = keep_from(stamps, now, window, j);
        let kj1 = keep_from(stamps, now, window, j + 1);
        if in_window(stamps[j], now, window) {
            assert(kj == seq![stamps[j]] + kj1);
            assert forall|i: int| 0 <= i < kj.len() implies in_window(kj[i], now, window) by {
                if i == 0 {
                    assert(kj[0] == stamps[j]);
                } else {
                    assert(kj[i] == kj1[i - 1]);
                }
            }
        } else {
            assert(kj == kj1);
        }
    } else {
        assert(keep_from(stamps, now, window, j).len() == 0);
    }
}

proof fn lemma_keep_from_all(stamps: Seq<u64>, now: u64, window: u64, j: int)
    requires
        0 <= j <= stamps.len(),
        forall|i: int| j <= i < stamps.len() ==> in_window(#[trigger] stamps[i], now, window),
    ensures
        keep_from(stamps, now, window, j) == stamps.skip(j),
    decreases stamps.len() - j,
{
    if j < stamps.len() {
        lemma_keep_from_all(stamps, now, window, j + 1);
        assert(seq![stamps[j]] + stamps.skip(j + 1) =~= stamps.skip(j));
    } else {
        assert(stamps.skip(j) =~= Seq::<u64>::empty());
    }
}

proof fn lemma_keep_from_none(stamps: Seq<u64>, now: u64, window: u64, j: int)
    requires
        forall|i: int| 0 <= i < stamps.len() ==> !in_window(#[trigger] stamps[i], now, window),
    ensures
        keep_from(stamps, now, window, j) == Seq::<u64>::empty(),
    decreases stamps.len() - j,
{
    if 0 <= j < stamps.len() {
        lemma_keep_from_none(stamps, now, window, j + 1);
    }
}

/// Law: one admission step, observed at the same instant, raises the
/// in-window count by exactly one on admission and leaves it unchanged on
/// denial; admission happens exactly when the count is below the budget.
pub proof fn lemma_admit_count(stamps: Seq<u64>, now: u64, window: u64, max: int)
    ensures
        admit_allowed(stamps, now, window, max) <==> keep_recent(stamps, now, window).len() < max,
        keep_recent(admit_step(stamps, now, window, max), now, window).len() == if admit_allowed(
            stamps,
            now,
            window,
            max,
        ) {
            keep_recent(stamps, now, window).len() as int + 1
        } else {
            keep_recent(stamps, now, window).len() as int
        },
{
    let kept = keep_recent(stamps, now, window);
    lemma_keep_from_elems(stamps, now, window, 0);
    if admit_allowed(stamps, now, window, max) {
        let stepped = kept.push(now);
        assert(forall|i: int|
            0 <= i < stepped.len() ==> in_window(#[trigger] stepped[i], now, window));
        lemma_keep_from_all(stepped, now, window, 0);
        assert(stepped.skip(0) =~= stepped);
    } else {
        lemma_keep_from_all(kept, now, window, 0);
        assert(kept.skip(0) =~= kept);
    }
}

/// The number of requests granted out of `n` back-to-back admission checks
/// at one instant against the same key.
pub open spec fn admits_granted(stamps: Seq<u64>, now: u64, window: u64, max: int, n: nat) -> int
    decreases n,
{
    if n == 0 {
        0
    } else {
        (if admit_allowed(stamps, now, window, max) {
            1int
        } else {
            0int
        }) + admits_granted(admit_step(stamps, now, window, max), now, window, max, (n - 1) as nat)
    }
}

/// Law: of `n` admission checks for one key at one instant, with budget
/// `max` and `c` requests already in the window, exactly `min(max - c, n)`
/// (and never more) are granted — no interleaving of checks, serialized
/// per key, can admit beyond the budget.
pub proof fn lemma_exact_admissions(stamps: Seq<u64>, now: u64, window: u64, max: int, n: nat)
    ensures
        admits_granted(stamps, now, window, max, n) == {
            let c = keep_recent(stamps, now, window).len() as int;
            if max - c < 0 {
                0int
            } else if n <= max - c {
                n as int
            } else {
                max - c
            }
        },
    decreases n,
{
    if n > 0 {
        lemma_admit_count(stamps, now, window, max);
        lemma_exact_admissions(admit_step(stamps, now, window, max), now, window, max, (n - 1) as nat);
    }
}

/// Law: once every recorded stamp of a key has aged out of the trailing
/// window, a subsequent request from that key is admitted (given a positive
/// budget).
pub proof fn lemma_window_elapses(stamps: Seq<u64>, now: u64, window: u64, max: int)
    requires
        forall|i: int| 0 <= i < stamps.len() ==> !in_window(#[trigger] stamps[i], now, window),
        max > 0,
    ensures
        admit_allowed(stamps, now, window, max),
{
    lemma_keep_from_none(stamps, now, window, 0);
}

} // verus!
