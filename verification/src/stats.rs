//! Per-second message counters over a rolling one-minute ring of buckets.
use vstd::prelude::*;

verus! {

/// Number of one-second buckets in the ring.
pub const RING_SECONDS: usize = 60;

/// `x` reduced modulo 2^64, the value a wrapping `u64` counter holds.
pub open spec fn wrap64(x: int) -> int {
    x % 0x1_0000_0000_0000_0000
}

/// The ring slot of second `t`.
pub open spec fn slot_of(t: int) -> int {
    t % 60
}

/// Second `t` names a slot without panicking: `t % 60` (Rust remainder) is not negative.
pub open spec fn slot_defined(t: int) -> bool {
    t >= 0 || t % 60 == 0
}

/// `cleanup_buckets(now)` runs without panicking from a ring last advanced at `last`.
pub open spec fn cleanup_defined(last: i64, now: i64) -> bool {
    ||| last == 0
    ||| now <= last
    ||| (now - last <= i64::MAX && (now - last >= 60 || forall|t: int|
        last < t <= now ==> #[trigger] slot_defined(t)))
}

/// Slot `i` is the slot of some second in `(last, now]`.
pub open spec fn slot_in_span(last: int, now: int, i: int) -> bool {
    exists|t: int| last < t <= now && #[trigger] slot_of(t) == i
}

/// The ring after `cleanup_buckets(now)`: every slot that a second in `(last, now]`
/// maps to is reset, the others are kept.
pub open spec fn cleaned_ring(b: Seq<u64>, last: i64, now: i64) -> Seq<u64> {
    if last == 0 || now <= last {
        b
    } else {
        Seq::new(b.len(), |i: int| if slot_in_span(last as int, now as int, i) { 0u64 } else { b[i] })
    }
}

/// The second recorded as the ring's latest after `cleanup_buckets(now)`.
pub open spec fn cleaned_last(last: i64, now: i64) -> i64 {
    if last == 0 || now > last {
        now
    } else {
        last
    }
}

/// Sum of the slots of the seconds `now, now-1, ..., now-(w-1)`.
pub open spec fn window_sum(b: Seq<u64>, now: int, w: int) -> int
    decreases w,
{
    if w <= 0 {
        0
    } else {
        window_sum(b, now, w - 1) + b[slot_of(now - (w - 1))] as int
    }
}

/// Sum of the first `n` slots.
pub open spec fn prefix_sum(b: Seq<u64>, n: int) -> int
    decreases n,
{
    if n <= 0 {
        0
    } else {
        prefix_sum(b, n - 1) + b[n - 1] as int
    }
}

/// `v` clamped into `[lo, hi]`.
pub open spec fn clamp(v: int, lo: int, hi: int) -> int {
    if v < lo {
        lo
    } else if v > hi {
        hi
    } else {
        v
    }
}

/// A fresh ring of sixty empty one-second buckets.
pub fn default_rate_buckets() -> (r: Vec<u64>)
    ensures
        r@ == Seq::new(60, |i: int| 0u64),
{
    let mut r: Vec<u64> = Vec::new();
    let mut i: usize = 0;
    while i < RING_SECONDS
        invariant
            i <= 60,
            r@ == Seq::new(i as nat, |j: int| 0u64),
        decreases 60 - i,
    {
        r.push(0);
        i = i + 1;
    }
    r
}

/// Running message totals: the overall count and a one-minute ring of per-second counts.
pub struct CumulativeStats {
    pub msg_count: u64,
    pub rate_buckets: Vec<u64>,
    pub last_bucket_ts: i64,
}

/// The persisted part of [`CumulativeStats`].
pub struct StatsSnapshot {
    pub msg_count: u64,
    pub last_bucket_ts: i64,
}

impl Default for CumulativeStats {
    fn default() -> (r: Self)
        ensures
            r.msg_count == 0,
            r.last_bucket_ts == 0,
            r.rate_buckets@ == Seq::new(60, |i: int| 0u64),
    {
        CumulativeStats { msg_count: 0, rate_buckets: default_rate_buckets(), last_bucket_ts: 0 }
    }
}

/// The slot index of second `t`, for a second that has one.
fn slot_index(t: i64) -> (r: usize)
    requires
        slot_defined(t as int),
    ensures
        r as int == slot_of(t as int),
        r < 60,
{
    if t >= 0 {
        (t % 60) as usize
    } else {
        0
    }
}

/// Moving from one second to the next extends the span by exactly that second's slot.
proof fn lemma_span_step(last: int, cur: int, i: int)
    requires
        last <= cur,
        cur + 1 - last < 60,
        0 <= i < 60,
    ensures
        slot_in_span(last, cur + 1, i) <==> (slot_in_span(last, cur, i) || slot_of(cur + 1) == i),
{
    if slot_in_span(last, cur + 1, i) {
        let t = choose|t: int| last < t <= cur + 1 && #[trigger] slot_of(t) == i;
        if t <= cur {
            assert(slot_in_span(last, cur, i));
        }
    }
    if slot_in_span(last, cur, i) {
        let t = choose|t: int| last < t <= cur && #[trigger] slot_of(t) == i;
        assert(last < t <= cur + 1 && slot_of(t) == i);
    }
    if slot_of(cur + 1) == i {
        assert(last < cur + 1 <= cur + 1 && slot_of(cur + 1) == i);
    }
}

/// A span of a full minute covers every slot.
proof fn lemma_full_span(last: int, now: int, i: int)
    requires
        now - last >= 60,
        0 <= i < 60,
    ensures
        slot_in_span(last, now, i),
{
    let base = last + 1;
    let r = base % 60;
    let t = if i >= r { base + (i - r) } else { base + (60 - r) + i };
    assert(slot_of(t) == i);
}

impl CumulativeStats {
    /// The ring has its sixty slots.
    pub open spec fn wf(&self) -> bool {
        self.rate_buckets@.len() == 60
    }

    /// Resets the slots of every second elapsed since the ring was last advanced, and
    /// records `now` as the latest second. A ring that was never advanced only records
    /// `now`; a `now` at or before the latest second changes nothing.
    pub fn cleanup_buckets(&mut self, now: i64)
        requires
            old(self).wf(),
            cleanup_defined(old(self).last_bucket_ts, now),
        ensures
            final(self).wf(),
            final(self).msg_count == old(self).msg_count,
            final(self).last_bucket_ts == cleaned_last(old(self).last_bucket_ts, now),
            final(self).rate_buckets@ == cleaned_ring(
                old(self).rate_buckets@,
                old(self).last_bucket_ts,
                now,
            ),
    {
        let last = self.last_bucket_ts;
        if last == 0 {
            self.last_bucket_ts = now;
            return ;
        }
        if now > last {
            let diff = now - last;
            let ghost b0 = self.rate_buckets@;
            if diff >= 60 {
                let mut i: usize = 0;
                while i < RING_SECONDS
                    invariant
                        i <= 60,
                        self.rate_buckets@.len() == 60,
                        self.msg_count == old(self).msg_count,
                        b0.len() == 60,
                        forall|j: int| 0 <= j < i ==> self.rate_buckets@[j] == 0u64,
                        forall|j: int| i <= j < 60 ==> self.rate_buckets@[j] == b0[j],
                    decreases 60 - i,
                {
                    self.rate_buckets.set(i, 0);
                    i = i + 1;
                }
                proof {
                    assert forall|j: int| 0 <= j < 60 implies slot_in_span(
                        last as int,
                        now as int,
                        j,
                    ) by {
                        lemma_full_span(last as int, now as int, j);
                    }
                    assert(self.rate_buckets@ =~= cleaned_ring(b0, last, now));
                }
            } else {
                let mut t: i64 = last;
                while t < now
                    invariant
                        last < now,
                        now - last < 60,
                        last <= t <= now,
                        b0.len() == 60,
                        self.rate_buckets@.len() == 60,
                        self.msg_count == old(self).msg_count,
                        forall|u: int| last < u <= now ==> #[trigger] slot_defined(u),
                        forall|j: int|
                            0 <= j < 60 ==> self.rate_buckets@[j] == (if slot_in_span(
                                last as int,
                                t as int,
                                j,
                            ) {
                                0u64
                            } else {
                                b0[j]
                            }),
                    decreases now - t,
                {
                    let next = t + 1;
                    assert(slot_defined(next as int));
                    let idx = slot_index(next);
                    self.rate_buckets.set(idx, 0);
                    proof {
                        assert forall|j: int| 0 <= j < 60 implies self.rate_buckets@[j] == (if slot_in_span(
                            last as int,
                            next as int,
                            j,
                        ) {
                            0u64
                        } else {
                            b0[j]
                        }) by {
                            lemma_span_step(last as int, t as int, j);
                        }
                    }
                    t = next;
                }
                assert(self.rate_buckets@ =~= cleaned_ring(b0, last, now));
            }
            self.last_bucket_ts = now;
        }
    }

    /// Counts one message received at second `ts`: the total goes up by one and so does
    /// the slot of `ts`, after the ring has been advanced to `ts`.
    pub fn add_event(&mut self, ts: i64)
        requires
            old(self).wf(),
            cleanup_defined(old(self).last_bucket_ts, ts),
            slot_defined(ts as int),
        ensures
            final(self).wf(),
            final(self).msg_count as int == wrap64(old(self).msg_count + 1),
            final(self).last_bucket_ts == cleaned_last(old(self).last_bucket_ts, ts),
            final(self).rate_buckets@ == ({
                let c = cleaned_ring(old(self).rate_buckets@, old(self).last_bucket_ts, ts);
                c.update(slot_of(ts as int), wrap64(c[slot_of(ts as int)] + 1) as u64)
            }),
    {
        self.msg_count = self.msg_count.wrapping_add(1);
        self.cleanup_buckets(ts);
        let idx = slot_index(ts);
        let v = self.rate_buckets[idx].wrapping_add(1);
        self.rate_buckets.set(idx, v);
    }

    /// Advances the ring to `now`, then returns the number of messages counted in the
    /// last `window_secs` seconds (clamped to one..sixty) together with that clamped
    /// window. The rate is the first divided by the second.
    pub fn get_total_for_window(&mut self, now: i64, window_secs: i64) -> (r: (u64, i64))
        requires
            old(self).wf(),
            cleanup_defined(old(self).last_bucket_ts, now),
            now - (clamp(window_secs as int, 1, 60) - 1) >= i64::MIN,
            forall|i: int|
                0 <= i < clamp(window_secs as int, 1, 60) ==> #[trigger] slot_defined(now - i),
        ensures
            final(self).wf(),
            final(self).msg_count == old(self).msg_count,
            final(self).last_bucket_ts == cleaned_last(old(self).last_bucket_ts, now),
            final(self).rate_buckets@ == cleaned_ring(
                old(self).rate_buckets@,
                old(self).last_bucket_ts,
                now,
            ),
            r.1 as int == clamp(window_secs as int, 1, 60),
            r.0 as int == wrap64(window_sum(final(self).rate_buckets@, now as int, r.1 as int)),
    {
        self.cleanup_buckets(now);
        let window: i64 = if window_secs < 1 {
            1
        } else if window_secs > 60 {
            60
        } else {
            window_secs
        };
        let mut total: u64 = 0;
        let mut i: i64 = 0;
        while i < window
            invariant
                1 <= window <= 60,
                0 <= i <= window,
                window as int == clamp(window_secs as int, 1, 60),
                now - (window - 1) >= i64::MIN,
                self.rate_buckets@.len() == 60,
                forall|k: int| 0 <= k < window ==> #[trigger] slot_defined(now - k),
                total as int == wrap64(window_sum(self.rate_buckets@, now as int, i as int)),
            decreases window - i,
        {
            assert(slot_defined(now - i));
            let ts = now - i;
            let idx = slot_index(ts);
            let add = self.rate_buckets[idx];
            proof {
                let s = window_sum(self.rate_buckets@, now as int, i as int);
                assert(window_sum(self.rate_buckets@, now as int, i + 1) == s + add);
                vstd::arithmetic::div_mod::lemma_add_mod_noop(
                    s,
                    add as int,
                    0x1_0000_0000_0000_0000,
                );
                vstd::arithmetic::div_mod::lemma_mod_twice(s, 0x1_0000_0000_0000_0000);
                vstd::arithmetic::div_mod::lemma_small_mod(add as nat, 0x1_0000_0000_0000_0000);
            }
            total = total.wrapping_add(add);
            i = i + 1;
        }
        (total, window)
    }

    /// Advances the ring to `now`; when the ring has seen a second in the last minute,
    /// returns the total of all sixty slots and the divisor of the current rate: the
    /// seconds since `start_ts`, at least one and at most sixty. Returns `None` (a rate
    /// of zero) when the latest second is a minute or more before `now`.
    pub fn get_current_rate_parts(&mut self, now: i64, start_ts: i64) -> (r: Option<(u64, i64)>)
        requires
            old(self).wf(),
            cleanup_defined(old(self).last_bucket_ts, now),
            i64::MIN <= now - cleaned_last(old(self).last_bucket_ts, now) <= i64::MAX,
            i64::MIN <= now - start_ts <= i64::MAX,
        ensures
            final(self).wf(),
            final(self).msg_count == old(self).msg_count,
            final(self).last_bucket_ts == cleaned_last(old(self).last_bucket_ts, now),
            final(self).rate_buckets@ == cleaned_ring(
                old(self).rate_buckets@,
                old(self).last_bucket_ts,
                now,
            ),
            now - final(self).last_bucket_ts >= 60 ==> r is None,
            now - final(self).last_bucket_ts < 60 ==> r == Some(
                (
                    wrap64(prefix_sum(final(self).rate_buckets@, 60)) as u64,
                    clamp(now - start_ts, 1, 60) as i64,
                ),
            ),
    {
        self.cleanup_buckets(now);
        let last = self.last_bucket_ts;
        if now - last >= 60 {
            return None;
        }
        let elapsed: i64 = if now - start_ts < 1 {
            1
        } else {
            now - start_ts
        };
        let divisor: i64 = if elapsed > 60 {
            60
        } else {
            elapsed
        };
        let mut total: u64 = 0;
        let mut i: usize = 0;
        while i < RING_SECONDS
            invariant
                0 <= i <= 60,
                self.rate_buckets@.len() == 60,
                total as int == wrap64(prefix_sum(self.rate_buckets@, i as int)),
            decreases 60 - i,
        {
            let add = self.rate_buckets[i];
            proof {
                let s = prefix_sum(self.rate_buckets@, i as int);
                vstd::arithmetic::div_mod::lemma_add_mod_noop(
                    s,
                    add as int,
                    0x1_0000_0000_0000_0000,
                );
                vstd::arithmetic::div_mod::lemma_mod_twice(s, 0x1_0000_0000_0000_0000);
                vstd::arithmetic::div_mod::lemma_small_mod(add as nat, 0x1_0000_0000_0000_0000);
            }
            total = total.wrapping_add(add);
            i = i + 1;
        }
        Some((total, divisor))
    }

    /// The persisted counters.
    pub fn to_snapshot(&self) -> (r: StatsSnapshot)
        ensures
            r.msg_count == self.msg_count,
            r.last_bucket_ts == self.last_bucket_ts,
    {
        StatsSnapshot { msg_count: self.msg_count, last_bucket_ts: self.last_bucket_ts }
    }

    /// Counters restored from a snapshot, with an empty ring.
    pub fn from_snapshot(snap: StatsSnapshot) -> (r: Self)
        ensures
            r.wf(),
            r.msg_count == snap.msg_count,
            r.last_bucket_ts == snap.last_bucket_ts,
            r.rate_buckets@ == Seq::new(60, |i: int| 0u64),
    {
        CumulativeStats {
            msg_count: snap.msg_count,
            rate_buckets: default_rate_buckets(),
            last_bucket_ts: snap.last_bucket_ts,
        }
    }
}

/// Restoring a snapshot keeps both counters that were saved.
pub proof fn law_snapshot_round_trip(s: CumulativeStats, snap: StatsSnapshot, back: CumulativeStats)
    requires
        snap.msg_count == s.msg_count,
        snap.last_bucket_ts == s.last_bucket_ts,
        back.msg_count == snap.msg_count,
        back.last_bucket_ts == snap.last_bucket_ts,
    ensures
        back.msg_count == s.msg_count,
        back.last_bucket_ts == s.last_bucket_ts,
{
}

/// Advancing the ring twice to the same second is the same as advancing it once.
pub proof fn law_cleanup_idempotent(b: Seq<u64>, last: i64, now: i64)
    requires
        b.len() == 60,
    ensures
        cleaned_ring(cleaned_ring(b, last, now), cleaned_last(last, now), now) == cleaned_ring(
            b,
            last,
            now,
        ),
        cleaned_last(cleaned_last(last, now), now) == cleaned_last(last, now),
{
}

} // verus!
