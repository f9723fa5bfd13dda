//! Timing rules of the feed consumers and of alert de-duplication.
use vstd::prelude::*;

verus! {

/// The wait after a failed subscription: twice the last wait, at most `max_secs`.
pub open spec fn backoff_after(cur_secs: u64, max_secs: u64) -> u64 {
    if 2 * cur_secs <= max_secs {
        (2 * cur_secs) as u64
    } else {
        max_secs
    }
}

/// The wait, in seconds, before the next subscription attempt once one has failed after
/// waiting `cur_secs`: doubled, but never beyond `max_secs`.
pub fn next_backoff(cur_secs: u64, max_secs: u64) -> (r: u64)
    requires
        cur_secs <= u64::MAX / 2,
    ensures
        r == backoff_after(cur_secs, max_secs),
{
    let doubled = cur_secs * 2;
    if doubled <= max_secs {
        doubled
    } else {
        max_secs
    }
}

/// The length, in seconds, of the windows within which an alert is recorded once.
pub const ALERT_WINDOW_SECS: i64 = 14400;

/// The de-duplication window of an alert raised at `ts`: `ts` divided by four hours,
/// rounded toward zero.
pub open spec fn alert_window_of(ts: i64) -> int {
    if ts >= 0 {
        ts as int / ALERT_WINDOW_SECS as int
    } else {
        -((-(ts as int)) / ALERT_WINDOW_SECS as int)
    }
}

/// The de-duplication window of an alert raised at `ts` (see [`alert_window_of`]).
pub fn alert_window(ts: i64) -> (r: i64)
    ensures
        r == alert_window_of(ts),
{
    if ts >= 0 {
        ts / ALERT_WINDOW_SECS
    } else {
        let mag: u64 = (-(ts + 1)) as u64 + 1;
        let q: u64 = mag / 14400;
        assert(mag == -ts);
        -(q as i64)
    }
}

/// The wait after `k` consecutive failures, starting from a wait of `start` seconds.
pub open spec fn backoff_after_failures(start: u64, max_secs: u64, k: nat) -> u64
    decreases k,
{
    if k == 0 {
        start
    } else {
        backoff_after(backoff_after_failures(start, max_secs, (k - 1) as nat), max_secs)
    }
}

/// Consecutive failures double the wait from its start, never beyond the cap: after `k`
/// failures with no success between them the wait is `start * 2^k`, or the cap once that
/// passes it.
pub proof fn law_backoff_doubles_to_cap(start: u64, max_secs: u64, k: nat)
    requires
        start <= max_secs,
        max_secs <= u64::MAX / 2,
    ensures
        backoff_after_failures(start, max_secs, k) == if start * vstd::arithmetic::power2::pow2(k) <= max_secs {
            start * vstd::arithmetic::power2::pow2(k)
        } else {
            max_secs as int
        },
        backoff_after_failures(start, max_secs, k) <= max_secs,
    decreases k,
{
    if k == 0 {
        vstd::arithmetic::power2::lemma2_to64();
    } else {
        vstd::arithmetic::power2::lemma_pow2_unfold(k);
        law_backoff_doubles_to_cap(start, max_secs, (k - 1) as nat);
        let p = vstd::arithmetic::power2::pow2((k - 1) as nat);
        vstd::arithmetic::power2::lemma_pow2_pos((k - 1) as nat);
        assert(start * (2 * p) == 2 * (start * p)) by (nonlinear_arith);
        assert(start * p >= 0) by (nonlinear_arith)
            requires p > 0;
        if start * p > max_secs {
            assert(2 * (start * p) > max_secs);
        }
    }
}

/// A data set the collector keeps fresh.
#[derive(Clone, Copy, PartialEq, Eq, Structural)]
pub enum Dataset {
    AsInfo,
    Rpki,
    Bogons,
    As2Rel,
    MrtCollectors,
}

/// How often a data set is refreshed, and how soon a failed refresh is retried, in
/// seconds: RPKI daily, retried hourly; the MRT collector list monthly, retried weekly;
/// the others weekly, retried daily.
pub open spec fn intervals_of(d: Dataset) -> (i64, i64) {
    match d {
        Dataset::Rpki => (86400, 3600),
        Dataset::MrtCollectors => (2592000, 604800),
        _ => (604800, 86400),
    }
}

/// The refresh and retry intervals of a data set (see [`intervals_of`]).
pub fn dataset_intervals(d: Dataset) -> (r: (i64, i64))
    ensures
        r == intervals_of(d),
{
    match d {
        Dataset::AsInfo => (604800, 86400),
        Dataset::Rpki => (86400, 3600),
        Dataset::Bogons => (604800, 86400),
        Dataset::As2Rel => (604800, 86400),
        Dataset::MrtCollectors => (2592000, 604800),
    }
}

/// Whether a data set is due at `now`, given when it last loaded (`last_success`) and
/// when a load was last tried (`last_attempt`): a refresh is due once the refresh
/// interval has passed since the last success; a retry is due when the last attempt
/// failed (came after the last success) and the retry interval has passed since it.
pub fn refresh_due(now: i64, last_success: i64, last_attempt: i64, refresh: i64, retry: i64) -> (r: (
    bool,
    bool,
))
    requires
        i64::MIN <= last_success + refresh <= i64::MAX,
        i64::MIN <= last_attempt + retry <= i64::MAX,
    ensures
        r.0 == (now >= last_success + refresh),
        r.1 == (last_attempt > last_success && now >= last_attempt + retry),
{
    let due_refresh = now >= last_success + refresh;
    let due_retry = last_attempt > last_success && now >= last_attempt + retry;
    (due_refresh, due_retry)
}

} // verus!
