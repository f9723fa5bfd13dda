//! What the classifier remembers of one prefix: per-minute counters and the last
//! attributes each collector session reported.
use vstd::prelude::*;
use crate::types::{
    ClassificationType, LeakType, StatsBucket, LastAttrs, empty_bucket,
};

verus! {

/// `x + y` wrapped to 32 bits.
pub open spec fn wadd(x: u32, y: u32) -> u32 {
    if x + y > u32::MAX {
        (x + y - 0x1_0000_0000) as u32
    } else {
        (x + y) as u32
    }
}

/// The view of optional text.
pub open spec fn opt_view(o: Option<String>) -> Option<Seq<char>> {
    match o {
        Some(s) => Some(s@),
        None => None,
    }
}

/// A copy of optional text.
pub fn copy_opt(o: &Option<String>) -> (r: Option<String>)
    ensures
        r == *o,
{
    match o {
        Some(s) => Some(s.clone()),
        None => None,
    }
}

/// The attributes of a session, with text as character sequences.
pub struct AttrsView {
    pub path: Seq<char>,
    pub communities: Seq<char>,
    pub next_hop: Seq<char>,
    pub aggregator: Seq<char>,
    pub last_path_len: i32,
    pub origin_asn: u32,
    pub med: Option<u32>,
    pub local_pref: Option<u32>,
    pub last_update_ts: i64,
    pub host: Seq<char>,
    pub withdrawn: bool,
}

impl View for LastAttrs {
    type V = AttrsView;

    open spec fn view(&self) -> AttrsView {
        AttrsView {
            path: self.path@,
            communities: self.communities@,
            next_hop: self.next_hop@,
            aggregator: self.aggregator@,
            last_path_len: self.last_path_len,
            origin_asn: self.origin_asn,
            med: self.med,
            local_pref: self.local_pref,
            last_update_ts: self.last_update_ts,
            host: self.host@,
            withdrawn: self.withdrawn,
        }
    }
}

/// Counter increments applied to one bucket.
#[derive(Clone, Copy)]
pub struct BucketDelta {
    pub announcements: u32,
    pub withdrawals: u32,
    pub total_messages: u32,
    pub path_changes: u32,
    pub path_length_increases: u32,
    pub path_length_decreases: u32,
    pub flaps: u32,
}

/// No increments.
pub open spec fn no_delta() -> BucketDelta {
    BucketDelta {
        announcements: 0,
        withdrawals: 0,
        total_messages: 0,
        path_changes: 0,
        path_length_increases: 0,
        path_length_decreases: 0,
        flaps: 0,
    }
}

/// `b` with the increments of `d` added (each counter wraps at 32 bits).
pub open spec fn apply_delta(b: StatsBucket, d: BucketDelta) -> StatsBucket {
    StatsBucket {
        announcements: wadd(b.announcements, d.announcements),
        withdrawals: wadd(b.withdrawals, d.withdrawals),
        total_messages: wadd(b.total_messages, d.total_messages),
        path_changes: wadd(b.path_changes, d.path_changes),
        path_length_increases: wadd(b.path_length_increases, d.path_length_increases),
        path_length_decreases: wadd(b.path_length_decreases, d.path_length_decreases),
        flaps: wadd(b.flaps, d.flaps),
        ..b
    }
}

/// The bucket list has a bucket for minute `ts`.
pub open spec fn has_bucket(bs: Seq<(i64, StatsBucket)>, ts: i64) -> bool {
    exists|i: int| 0 <= i < bs.len() && #[trigger] bs[i].0 == ts
}

/// The position of the bucket of minute `ts`.
pub open spec fn bucket_pos(bs: Seq<(i64, StatsBucket)>, ts: i64) -> int {
    choose|i: int| 0 <= i < bs.len() && #[trigger] bs[i].0 == ts
}

/// The bucket of minute `ts`, empty when there is none.
pub open spec fn bucket_get(bs: Seq<(i64, StatsBucket)>, ts: i64) -> StatsBucket {
    if has_bucket(bs, ts) {
        bs[bucket_pos(bs, ts)].1
    } else {
        empty_bucket()
    }
}

/// The bucket list with the bucket of minute `ts` set to `b`: replaced in place, or
/// appended when there was none.
pub open spec fn bucket_set(bs: Seq<(i64, StatsBucket)>, ts: i64, b: StatsBucket) -> Seq<
    (i64, StatsBucket),
> {
    if has_bucket(bs, ts) {
        bs.update(bucket_pos(bs, ts), (ts, b))
    } else {
        bs.push((ts, b))
    }
}

/// The bucket list with the increments `d` added to the bucket of minute `ts`.
pub open spec fn bucket_add(bs: Seq<(i64, StatsBucket)>, ts: i64, d: BucketDelta) -> Seq<
    (i64, StatsBucket),
> {
    bucket_set(bs, ts, apply_delta(bucket_get(bs, ts), d))
}

/// No minute has two buckets.
pub open spec fn buckets_distinct(bs: Seq<(i64, StatsBucket)>) -> bool {
    forall|i: int, j: int| 0 <= i < bs.len() && 0 <= j < bs.len() && i != j ==> bs[i].0 != bs[j].0
}

/// The session list has an entry for session `k`.
pub open spec fn has_peer(ps: Seq<(Seq<char>, AttrsView)>, k: Seq<char>) -> bool {
    exists|i: int| 0 <= i < ps.len() && #[trigger] ps[i].0 == k
}

/// The position of session `k`.
pub open spec fn peer_pos(ps: Seq<(Seq<char>, AttrsView)>, k: Seq<char>) -> int {
    choose|i: int| 0 <= i < ps.len() && #[trigger] ps[i].0 == k
}

/// No session has two entries.
pub open spec fn peers_distinct(ps: Seq<(Seq<char>, AttrsView)>) -> bool {
    forall|i: int, j: int| 0 <= i < ps.len() && 0 <= j < ps.len() && i != j ==> ps[i].0 != ps[j].0
}

/// A bucket within the last ten minutes before `now` is kept.
pub open spec fn bucket_recent(now: i64) -> spec_fn((i64, StatsBucket)) -> bool {
    |e: (i64, StatsBucket)| e.0 >= now - 600
}

/// A session is kept unless it was withdrawn more than an hour before `now`.
pub open spec fn peer_current(now: i64) -> spec_fn((Seq<char>, AttrsView)) -> bool {
    |e: (Seq<char>, AttrsView)| !e.1.withdrawn || e.1.last_update_ts >= now - 3600
}

/// The state of a prefix, with text as character sequences and sessions by their
/// `host:peer` key.
pub struct PrefixStateView {
    pub peers: Seq<(Seq<char>, AttrsView)>,
    pub buckets: Seq<(i64, StatsBucket)>,
    pub start_time_ts: i64,
    pub last_update_ts: i64,
    pub last_rpki_status: i32,
    pub last_origin_asn: u32,
    pub historical_origin_asn: u32,
    pub classified_type: ClassificationType,
    pub classified_time_ts: i64,
    pub leak_type: LeakType,
    pub leaker_asn: u32,
    pub victim_asn: u32,
    pub fully_withdrawn_ts: Option<i64>,
    pub uncategorized_counted: bool,
    pub active_incident_id: Option<Seq<char>>,
    pub lat_bits: u32,
    pub lon_bits: u32,
    pub city: Option<Seq<char>>,
    pub country: Option<Seq<char>>,
}

/// What the classifier remembers of one prefix.
pub struct PrefixState {
    pub peer_last_attrs: Vec<(String, LastAttrs)>,
    pub buckets: Vec<(i64, StatsBucket)>,
    pub start_time_ts: i64,
    pub last_update_ts: i64,
    pub last_rpki_status: i32,
    pub last_origin_asn: u32,
    pub historical_origin_asn: u32,
    pub classified_type: ClassificationType,
    pub classified_time_ts: i64,
    pub leak_type: LeakType,
    pub leaker_asn: u32,
    pub victim_asn: u32,
    pub fully_withdrawn_ts: Option<i64>,
    pub uncategorized_counted: bool,
    pub active_incident_id: Option<String>,
    pub lat_bits: u32,
    pub lon_bits: u32,
    pub city: Option<String>,
    pub country: Option<String>,
}

/// The view of a session list.
pub open spec fn peers_view(ps: Seq<(String, LastAttrs)>) -> Seq<(Seq<char>, AttrsView)> {
    ps.map_values(|e: (String, LastAttrs)| (e.0@, e.1@))
}

impl View for PrefixState {
    type V = PrefixStateView;

    open spec fn view(&self) -> PrefixStateView {
        PrefixStateView {
            peers: peers_view(self.peer_last_attrs@),
            buckets: self.buckets@,
            start_time_ts: self.start_time_ts,
            last_update_ts: self.last_update_ts,
            last_rpki_status: self.last_rpki_status,
            last_origin_asn: self.last_origin_asn,
            historical_origin_asn: self.historical_origin_asn,
            classified_type: self.classified_type,
            classified_time_ts: self.classified_time_ts,
            leak_type: self.leak_type,
            leaker_asn: self.leaker_asn,
            victim_asn: self.victim_asn,
            fully_withdrawn_ts: self.fully_withdrawn_ts,
            uncategorized_counted: self.uncategorized_counted,
            active_incident_id: opt_view(self.active_incident_id),
            lat_bits: self.lat_bits,
            lon_bits: self.lon_bits,
            city: opt_view(self.city),
            country: opt_view(self.country),
        }
    }
}

impl PrefixStateView {
    /// No session and no minute appears twice.
    pub open spec fn wf(self) -> bool {
        &&& peers_distinct(self.peers)
        &&& buckets_distinct(self.buckets)
    }
}

/// The state of a prefix first seen at `now`: nothing recorded, nothing classified.
pub open spec fn fresh_state(now: i64) -> PrefixStateView {
    PrefixStateView {
        peers: seq![],
        buckets: seq![],
        start_time_ts: now,
        last_update_ts: now,
        last_rpki_status: 0,
        last_origin_asn: 0,
        historical_origin_asn: 0,
        classified_type: ClassificationType::Unclassified,
        classified_time_ts: 0,
        leak_type: LeakType::NoLeak,
        leaker_asn: 0,
        victim_asn: 0,
        fully_withdrawn_ts: None,
        uncategorized_counted: false,
        active_incident_id: None,
        lat_bits: 0,
        lon_bits: 0,
        city: None,
        country: None,
    }
}

/// The current time in whole seconds since the Unix epoch, read with
/// `std::time::SystemTime::now`; `None` when the clock is before the epoch or past what
/// an `i64` holds. Nothing is claimed of the value: it is the machine's clock.
#[verifier::external_body]
pub(crate) fn unix_now_secs() -> (r: Option<i64>) {
    match std::time::SystemTime::now().duration_since(std::time::UNIX_EPOCH) {
        Ok(d) => i64::try_from(d.as_secs()).ok(),
        Err(_) => None,
    }
}

/// A copy of a session list.
fn copy_peers(ps: &Vec<(String, LastAttrs)>) -> (r: Vec<(String, LastAttrs)>)
    ensures
        peers_view(r@) == peers_view(ps@),
{
    let mut out: Vec<(String, LastAttrs)> = Vec::new();
    let mut i: usize = 0;
    while i < ps.len()
        invariant
            i <= ps@.len(),
            peers_view(out@) == peers_view(ps@.take(i as int)),
        decreases ps@.len() - i,
    {
        let e = (ps[i].0.clone(), ps[i].1.copy());
        let ghost before = out@;
        out.push(e);
        proof {
            assert(peers_view(out@) =~= peers_view(before).push((e.0@, e.1@)));
            assert(ps@.take(i + 1) =~= ps@.take(i as int).push(ps@[i as int]));
            assert(peers_view(ps@.take(i + 1)) =~= peers_view(ps@.take(i as int)).push(
                (ps@[i as int].0@, ps@[i as int].1@),
            ));
        }
        i = i + 1;
    }
    assert(ps@.take(i as int) =~= ps@);
    out
}

/// A copy of a bucket list.
fn copy_buckets(bs: &Vec<(i64, StatsBucket)>) -> (r: Vec<(i64, StatsBucket)>)
    ensures
        r@ == bs@,
{
    let mut out: Vec<(i64, StatsBucket)> = Vec::new();
    let mut i: usize = 0;
    while i < bs.len()
        invariant
            i <= bs@.len(),
            out@ == bs@.take(i as int),
        decreases bs@.len() - i,
    {
        out.push(bs[i]);
        assert(out@ =~= bs@.take(i + 1));
        i = i + 1;
    }
    assert(bs@.take(i as int) =~= bs@);
    out
}

impl Default for PrefixState {
    /// The state of a prefix first seen now, by the machine's clock (second 0 when the
    /// clock cannot be read).
    fn default() -> (r: Self)
        ensures
            exists|t: i64| r@ == #[trigger] fresh_state(t),
    {
        let t = match unix_now_secs() {
            Some(t) => t,
            None => 0,
        };
        PrefixState::new_at(t)
    }
}

impl PrefixState {
    /// Whether no session and no minute appears twice (see [`PrefixStateView::wf`]).
    pub fn is_well_formed(&self) -> (r: bool)
        ensures
            r == self@.wf(),
    {
        let n = self.peer_last_attrs.len();
        let mut i: usize = 0;
        while i < n
            invariant
                n == self.peer_last_attrs@.len(),
                n == self@.peers.len(),
                i <= n,
                forall|a: int, b: int|
                    0 <= a < i && 0 <= b < n && a != b ==> self@.peers[a].0 != self@.peers[b].0,
            decreases n - i,
        {
            let mut j: usize = 0;
            while j < n
                invariant
                    n == self.peer_last_attrs@.len(),
                    n == self@.peers.len(),
                    i < n,
                    j <= n,
                    forall|b: int| 0 <= b < j && b != i ==> self@.peers[i as int].0 != self@.peers[b].0,
                decreases n - j,
            {
                if i != j && self.peer_last_attrs[i].0.eq(&self.peer_last_attrs[j].0) {
                    assert(self@.peers[i as int].0 == self@.peers[j as int].0);
                    return false;
                }
                j = j + 1;
            }
            i = i + 1;
        }
        let m = self.buckets.len();
        let mut i: usize = 0;
        while i < m
            invariant
                m == self.buckets@.len(),
                i <= m,
                forall|a: int, b: int|
                    0 <= a < i && 0 <= b < m && a != b ==> self.buckets@[a].0 != self.buckets@[b].0,
            decreases m - i,
        {
            let mut j: usize = 0;
            while j < m
                invariant
                    m == self.buckets@.len(),
                    i < m,
                    j <= m,
                    forall|b: int| 0 <= b < j && b != i ==> self.buckets@[i as int].0 != self.buckets@[b].0,
                decreases m - j,
            {
                if i != j && self.buckets[i].0 == self.buckets[j].0 {
                    return false;
                }
                j = j + 1;
            }
            i = i + 1;
        }
        true
    }

    /// The state of a prefix first seen at `now`.
    pub fn new_at(now: i64) -> (r: Self)
        ensures
            r@ == fresh_state(now),
    {
        let r = PrefixState {
            peer_last_attrs: Vec::new(),
            buckets: Vec::new(),
            start_time_ts: now,
            last_update_ts: now,
            last_rpki_status: 0,
            last_origin_asn: 0,
            historical_origin_asn: 0,
            classified_type: ClassificationType::Unclassified,
            classified_time_ts: 0,
            leak_type: LeakType::NoLeak,
            leaker_asn: 0,
            victim_asn: 0,
            fully_withdrawn_ts: None,
            uncategorized_counted: false,
            active_incident_id: None,
            lat_bits: 0,
            lon_bits: 0,
            city: None,
            country: None,
        };
        assert(r@.peers =~= seq![]);
        r
    }

    /// A copy with the same view.
    pub fn copy(&self) -> (r: Self)
        ensures
            r@ == self@,
    {
        let r = PrefixState {
            peer_last_attrs: copy_peers(&self.peer_last_attrs),
            buckets: copy_buckets(&self.buckets),
            start_time_ts: self.start_time_ts,
            last_update_ts: self.last_update_ts,
            last_rpki_status: self.last_rpki_status,
            last_origin_asn: self.last_origin_asn,
            historical_origin_asn: self.historical_origin_asn,
            classified_type: self.classified_type,
            classified_time_ts: self.classified_time_ts,
            leak_type: self.leak_type,
            leaker_asn: self.leaker_asn,
            victim_asn: self.victim_asn,
            fully_withdrawn_ts: self.fully_withdrawn_ts,
            uncategorized_counted: self.uncategorized_counted,
            active_incident_id: copy_opt(&self.active_incident_id),
            lat_bits: self.lat_bits,
            lon_bits: self.lon_bits,
            city: copy_opt(&self.city),
            country: copy_opt(&self.country),
        };
        assert(r@.buckets =~= self@.buckets);
        r
    }

    /// The position of the bucket of minute `ts`, if there is one.
    pub fn find_bucket(&self, ts: i64) -> (r: Option<usize>)
        requires
            buckets_distinct(self.buckets@),
        ensures
            r matches Some(i) ==> i < self.buckets@.len() && i == bucket_pos(self.buckets@, ts)
                && self.buckets@[i as int].0 == ts,
            r is None ==> !has_bucket(self.buckets@, ts),
    {
        let mut i: usize = 0;
        while i < self.buckets.len()
            invariant
                i <= self.buckets@.len(),
                buckets_distinct(self.buckets@),
                forall|j: int| 0 <= j < i ==> self.buckets@[j].0 != ts,
            decreases self.buckets@.len() - i,
        {
            if self.buckets[i].0 == ts {
                assert(has_bucket(self.buckets@, ts));
                let ghost p = bucket_pos(self.buckets@, ts);
                assert(self.buckets@[p].0 == ts);
                proof {
                    if p != i as int {
                        assert(self.buckets@[p].0 != self.buckets@[i as int].0);
                    }
                }
                return Some(i);
            }
            i = i + 1;
        }
        None
    }

    /// Adds the increments `d` to the bucket of minute `ts`, creating it empty first when
    /// there is none.
    pub fn add_to_bucket(&mut self, ts: i64, d: BucketDelta)
        requires
            old(self)@.wf(),
        ensures
            final(self)@ == (PrefixStateView {
                buckets: bucket_add(old(self)@.buckets, ts, d),
                ..old(self)@
            }),
            final(self)@.wf(),
    {
        let ghost old_bs = self.buckets@;
        match self.find_bucket(ts) {
            Some(i) => {
                let b = self.buckets[i].1;
                let nb = StatsBucket {
                    announcements: b.announcements.wrapping_add(d.announcements),
                    withdrawals: b.withdrawals.wrapping_add(d.withdrawals),
                    total_messages: b.total_messages.wrapping_add(d.total_messages),
                    path_changes: b.path_changes.wrapping_add(d.path_changes),
                    path_length_increases: b.path_length_increases.wrapping_add(
                        d.path_length_increases,
                    ),
                    path_length_decreases: b.path_length_decreases.wrapping_add(
                        d.path_length_decreases,
                    ),
                    flaps: b.flaps.wrapping_add(d.flaps),
                    ..b
                };
                self.buckets.set(i, (ts, nb));
                assert(nb == apply_delta(bucket_get(old_bs, ts), d));
            },
            None => {
                let b = StatsBucket::default();
                let nb = StatsBucket {
                    announcements: b.announcements.wrapping_add(d.announcements),
                    withdrawals: b.withdrawals.wrapping_add(d.withdrawals),
                    total_messages: b.total_messages.wrapping_add(d.total_messages),
                    path_changes: b.path_changes.wrapping_add(d.path_changes),
                    path_length_increases: b.path_length_increases.wrapping_add(
                        d.path_length_increases,
                    ),
                    path_length_decreases: b.path_length_decreases.wrapping_add(
                        d.path_length_decreases,
                    ),
                    flaps: b.flaps.wrapping_add(d.flaps),
                    ..b
                };
                self.buckets.push((ts, nb));
                assert(nb == apply_delta(bucket_get(old_bs, ts), d));
            },
        }
        assert(self@.buckets =~= bucket_add(old_bs, ts, d));
        assert(self@.peers == old(self)@.peers);
    }

    /// The position of session `key`, if it has an entry.
    pub fn find_peer(&self, key: &String) -> (r: Option<usize>)
        requires
            peers_distinct(self@.peers),
        ensures
            r matches Some(i) ==> i < self@.peers.len() && i == peer_pos(self@.peers, key@)
                && self@.peers[i as int].0 == key@,
            r is None ==> !has_peer(self@.peers, key@),
    {
        let mut i: usize = 0;
        while i < self.peer_last_attrs.len()
            invariant
                i <= self.peer_last_attrs@.len(),
                self@.peers.len() == self.peer_last_attrs@.len(),
                peers_distinct(self@.peers),
                forall|j: int| 0 <= j < i ==> self@.peers[j].0 != key@,
            decreases self.peer_last_attrs@.len() - i,
        {
            if self.peer_last_attrs[i].0 == *key {
                assert(self@.peers[i as int].0 == key@);
                assert(has_peer(self@.peers, key@));
                let ghost p = peer_pos(self@.peers, key@);
                assert(self@.peers[p].0 == key@);
                proof {
                    if p != i as int {
                        assert(self@.peers[p].0 != self@.peers[i as int].0);
                    }
                }
                return Some(i);
            }
            i = i + 1;
        }
        None
    }

    /// Keeps the buckets of the last ten minutes before `now` and the sessions that are
    /// announced or were withdrawn within the last hour.
    pub fn retain_recent(&mut self, now: i64)
        requires
            old(self)@.wf(),
            now >= i64::MIN + 3600,
        ensures
            final(self)@ == (PrefixStateView {
                buckets: old(self)@.buckets.filter(bucket_recent(now)),
                peers: old(self)@.peers.filter(peer_current(now)),
                ..old(self)@
            }),
            final(self)@.wf(),
    {
        let ghost old_view = self@;
        let cutoff = now - 600;
        let mut nb: Vec<(i64, StatsBucket)> = Vec::new();
        let mut i: usize = 0;
        while i < self.buckets.len()
            invariant
                i <= self.buckets@.len(),
                cutoff == now - 600,
                self@ == old_view,
                old_view.wf(),
                nb@ == self.buckets@.take(i as int).filter(bucket_recent(now)),
                buckets_distinct(nb@),
                forall|j: int|
                    #![trigger nb@[j]]
                    0 <= j < nb@.len() ==> exists|k: int|
                        0 <= k < i && #[trigger] self.buckets@[k].0 == nb@[j].0,
            decreases self.buckets@.len() - i,
        {
            let e = self.buckets[i];
            proof {
                reveal_with_fuel(Seq::filter, 1);
                assert(self.buckets@.take(i + 1).drop_last() =~= self.buckets@.take(i as int));
            }
            if e.0 >= cutoff {
                proof {
                    assert forall|j: int| 0 <= j < nb@.len() implies nb@[j].0 != e.0 by {
                        let k = choose|k: int| 0 <= k < i && #[trigger] self.buckets@[k].0 == nb@[j].0;
                        assert(k != i);
                    }
                }
                nb.push(e);
                proof {
                    assert forall|j: int| #![trigger nb@[j]] 0 <= j < nb@.len() implies exists|k: int|
                        0 <= k < i + 1 && #[trigger] self.buckets@[k].0 == nb@[j].0 by {
                        if j == nb@.len() - 1 {
                            assert(self.buckets@[i as int].0 == nb@[j].0);
                        } else {
                            let k = choose|k: int| 0 <= k < i && #[trigger] self.buckets@[k].0 == nb@[j].0;
                            assert(self.buckets@[k].0 == nb@[j].0);
                        }
                    }
                }
            }
            i = i + 1;
        }
        assert(self.buckets@.take(i as int) =~= self.buckets@);
        let cutoff_peers = now - 3600;
        let mut np: Vec<(String, LastAttrs)> = Vec::new();
        let mut i: usize = 0;
        while i < self.peer_last_attrs.len()
            invariant
                i <= self.peer_last_attrs@.len(),
                cutoff_peers == now - 3600,
                self@ == old_view,
                old_view.wf(),
                self@.peers.len() == self.peer_last_attrs@.len(),
                peers_view(np@) == self@.peers.take(i as int).filter(peer_current(now)),
                peers_distinct(peers_view(np@)),
                forall|j: int|
                    #![trigger peers_view(np@)[j]]
                    0 <= j < np@.len() ==> exists|k: int|
                        0 <= k < i && #[trigger] self@.peers[k].0 == peers_view(np@)[j].0,
            decreases self.peer_last_attrs@.len() - i,
        {
            let ghost ev = self@.peers[i as int];
            proof {
                reveal_with_fuel(Seq::filter, 1);
                assert(self@.peers.take(i + 1).drop_last() =~= self@.peers.take(i as int));
            }
            let withdrawn = self.peer_last_attrs[i].1.withdrawn;
            let ts = self.peer_last_attrs[i].1.last_update_ts;
            if !withdrawn || ts >= cutoff_peers {
                let e = (self.peer_last_attrs[i].0.clone(), self.peer_last_attrs[i].1.copy());
                proof {
                    assert forall|j: int| 0 <= j < np@.len() implies peers_view(np@)[j].0 != ev.0 by {
                        let k = choose|k: int|
                            0 <= k < i && #[trigger] self@.peers[k].0 == peers_view(np@)[j].0;
                        assert(k != i);
                    }
                }
                let ghost before = np@;
                np.push(e);
                proof {
                    assert(peers_view(np@) =~= peers_view(before).push(ev));
                    assert forall|j: int| #![trigger peers_view(np@)[j]] 0 <= j < np@.len() implies exists|k: int|
                        0 <= k < i + 1 && #[trigger] self@.peers[k].0 == peers_view(np@)[j].0 by {
                        if j == np@.len() - 1 {
                            assert(self@.peers[i as int].0 == peers_view(np@)[j].0);
                        } else {
                            let k = choose|k: int|
                                0 <= k < i && #[trigger] self@.peers[k].0 == peers_view(before)[j].0;
                            assert(self@.peers[k].0 == peers_view(np@)[j].0);
                        }
                    }
                }
            }
            i = i + 1;
        }
        assert(self@.peers.take(i as int) =~= self@.peers);
        self.buckets = nb;
        self.peer_last_attrs = np;
    }
}

} // verus!
