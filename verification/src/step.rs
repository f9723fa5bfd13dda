//! One update applied to a prefix's state: counters, session attributes, expiry of the
//! current classification, judgement, and the event and storage writes that follow.
use vstd::prelude::*;
use vstd::string::StringExecFns;
use crate::types::{
    ClassificationType, LeakType, LeakDetail, AnomalyDetails, LastAttrs, MessageContext,
    PendingEvent, classification_code,
};
use crate::prefix::{IpPrefix, ipnet_parse, parse_prefix};
use crate::prefix_state::{
    AttrsView, PrefixState, PrefixStateView, BucketDelta, bucket_add, has_peer, peer_pos,
    bucket_recent, peer_current, opt_view, copy_opt,
};
use crate::decide::{
    Facts, EventCore, EventCoreView, LeakFinding, evaluate, evaluate_prefix_state, judge_defined,
};

verus! {

/// An update with text as characters.
pub struct CtxView {
    pub now: i64,
    pub host: Seq<char>,
    pub peer: Seq<char>,
    pub is_withdrawal: bool,
    pub path_str: Seq<char>,
    pub comm_str: Seq<char>,
    pub origin_asn: u32,
    pub path_len: usize,
    pub source: Seq<char>,
}

impl View for MessageContext {
    type V = CtxView;

    open spec fn view(&self) -> CtxView {
        CtxView {
            now: self.now,
            host: self.host@,
            peer: self.peer@,
            is_withdrawal: self.is_withdrawal,
            path_str: self.path_str@,
            comm_str: self.comm_str@,
            origin_asn: self.origin_asn,
            path_len: self.path_len,
            source: self.source@,
        }
    }
}

/// A leak detail with text as characters.
pub struct LeakView {
    pub leak_type: LeakType,
    pub leaker_asn: u32,
    pub victim_asn: u32,
    pub leaker_as_name: Seq<char>,
    pub victim_as_name: Seq<char>,
    pub leaker_rpki_status: i32,
    pub victim_rpki_status: i32,
}

impl View for LeakDetail {
    type V = LeakView;

    open spec fn view(&self) -> LeakView {
        LeakView {
            leak_type: self.leak_type,
            leaker_asn: self.leaker_asn,
            victim_asn: self.victim_asn,
            leaker_as_name: self.leaker_as_name@,
            victim_as_name: self.victim_as_name@,
            leaker_rpki_status: self.leaker_rpki_status,
            victim_rpki_status: self.victim_rpki_status,
        }
    }
}

/// An event with text as characters.
pub struct EventView {
    pub prefix: Seq<char>,
    pub asn: u32,
    pub as_name: Seq<char>,
    pub peer_ip: Seq<char>,
    pub historical_asn: u32,
    pub timestamp: i64,
    pub classification_type: ClassificationType,
    pub old_classification: ClassificationType,
    pub incident_id: Option<Seq<char>>,
    pub incident_start_time: i64,
    pub leak_detail: Option<LeakView>,
    pub anomaly_details: Option<AnomalyDetails>,
    pub source: Seq<char>,
    pub lat_bits: u32,
    pub lon_bits: u32,
    pub city: Option<Seq<char>>,
    pub country: Option<Seq<char>>,
}

/// The view of an optional leak detail.
pub open spec fn opt_leak_view(o: Option<LeakDetail>) -> Option<LeakView> {
    match o {
        Some(l) => Some(l@),
        None => None,
    }
}

impl View for PendingEvent {
    type V = EventView;

    open spec fn view(&self) -> EventView {
        EventView {
            prefix: self.prefix@,
            asn: self.asn,
            as_name: self.as_name@,
            peer_ip: self.peer_ip@,
            historical_asn: self.historical_asn,
            timestamp: self.timestamp,
            classification_type: self.classification_type,
            old_classification: self.old_classification,
            incident_id: opt_view(self.incident_id),
            incident_start_time: self.incident_start_time,
            leak_detail: opt_leak_view(self.leak_detail),
            anomaly_details: self.anomaly_details,
            source: self.source@,
            lat_bits: self.lat_bits,
            lon_bits: self.lon_bits,
            city: opt_view(self.city),
            country: opt_view(self.country),
        }
    }
}

/// A write to the prefix-state store.
#[allow(inconsistent_fields)]
pub enum DbWrite {
    Upsert { prefix: String, state: PrefixState, ts: i64, c_type: i32, asn: u32 },
    Delete(String),
    Seen { prefix: IpPrefix, asn: u32 },
}

/// A store write with text as characters.
#[allow(inconsistent_fields)]
pub enum WriteView {
    Upsert { prefix: Seq<char>, state: PrefixStateView, ts: i64, c_type: i32, asn: u32 },
    Delete(Seq<char>),
    Seen { prefix: IpPrefix, asn: u32 },
}

impl View for DbWrite {
    type V = WriteView;

    open spec fn view(&self) -> WriteView {
        match self {
            DbWrite::Upsert { prefix, state, ts, c_type, asn } => WriteView::Upsert {
                prefix: prefix@,
                state: state@,
                ts: *ts,
                c_type: *c_type,
                asn: *asn,
            },
            DbWrite::Delete(p) => WriteView::Delete(p@),
            DbWrite::Seen { prefix, asn } => WriteView::Seen { prefix: *prefix, asn: *asn },
        }
    }
}

/// The views of a list of writes.
pub open spec fn writes_view(ws: Seq<DbWrite>) -> Seq<WriteView> {
    ws.map_values(|w: DbWrite| w@)
}

/// The key of a collector session: the collector, a colon, the peer.
pub open spec fn session_key(host: Seq<char>, peer: Seq<char>) -> Seq<char> {
    host + seq![':'] + peer
}

/// The start of the minute of `now` (Rust division, rounding toward zero).
pub open spec fn minute_of(now: i64) -> i64 {
    if now >= 0 {
        (now / 60 * 60) as i64
    } else {
        (-((-now) / 60 * 60)) as i64
    }
}

/// The session list with session `k` set to `a`: replaced in place, or appended.
pub open spec fn peer_put(ps: Seq<(Seq<char>, AttrsView)>, k: Seq<char>, a: AttrsView) -> Seq<
    (Seq<char>, AttrsView),
> {
    if has_peer(ps, k) {
        ps.update(peer_pos(ps, k), (k, a))
    } else {
        ps.push((k, a))
    }
}

/// The attributes recorded for a session first heard of in a withdrawal.
pub open spec fn withdrawn_attrs(host: Seq<char>, now: i64) -> AttrsView {
    AttrsView {
        path: seq![],
        communities: seq![],
        next_hop: seq![],
        aggregator: seq![],
        last_path_len: 0,
        origin_asn: 0,
        med: None,
        local_pref: None,
        last_update_ts: now,
        host,
        withdrawn: true,
    }
}

/// The attributes recorded for an announcement.
pub open spec fn announced_attrs(c: CtxView) -> AttrsView {
    AttrsView {
        path: c.path_str,
        communities: c.comm_str,
        next_hop: seq![],
        aggregator: seq![],
        last_path_len: c.path_len as i32,
        origin_asn: c.origin_asn,
        med: None,
        local_pref: None,
        last_update_ts: c.now,
        host: c.host,
        withdrawn: false,
    }
}

/// A withdrawal from a session: one more withdrawal this minute, a flap when the session
/// was announcing, and the session marked withdrawn at `now` (created when unknown).
pub open spec fn record_withdrawal(st: PrefixStateView, m: i64, c: CtxView) -> PrefixStateView {
    let k = session_key(c.host, c.peer);
    let known = has_peer(st.peers, k);
    let flap = known && !st.peers[peer_pos(st.peers, k)].1.withdrawn;
    let d = BucketDelta {
        announcements: 0,
        withdrawals: 1,
        total_messages: 0,
        path_changes: 0,
        path_length_increases: 0,
        path_length_decreases: 0,
        flaps: if flap {
            1
        } else {
            0
        },
    };
    let attrs = if known {
        AttrsView {
            withdrawn: true,
            last_update_ts: c.now,
            ..st.peers[peer_pos(st.peers, k)].1
        }
    } else {
        withdrawn_attrs(c.host, c.now)
    };
    PrefixStateView {
        buckets: bucket_add(st.buckets, m, d),
        peers: peer_put(st.peers, k, attrs),
        classified_time_ts: if st.classified_type == ClassificationType::Outage {
            c.now
        } else {
            st.classified_time_ts
        },
        ..st
    }
}

/// An announcement from a session: one more announcement this minute, a flap when the
/// session had withdrawn, a path change when the path differs from the session's last
/// (a new session counts as one), with a lengthening or shortening of the path, and the
/// session's attributes replaced by this update's.
pub open spec fn record_announcement(st: PrefixStateView, m: i64, c: CtxView) -> PrefixStateView {
    let k = session_key(c.host, c.peer);
    let known = has_peer(st.peers, k);
    let last = st.peers[peer_pos(st.peers, k)].1;
    let changed = !known || last.path != c.path_str;
    let longer = known && changed && c.path_len > last.last_path_len as usize;
    let shorter = known && changed && c.path_len < last.last_path_len as usize;
    let d = BucketDelta {
        announcements: 1,
        withdrawals: 0,
        total_messages: 0,
        path_changes: if changed {
            1
        } else {
            0
        },
        path_length_increases: if longer {
            1
        } else {
            0
        },
        path_length_decreases: if shorter {
            1
        } else {
            0
        },
        flaps: if known && last.withdrawn {
            1
        } else {
            0
        },
    };
    PrefixStateView {
        buckets: bucket_add(st.buckets, m, d),
        peers: peer_put(st.peers, k, announced_attrs(c)),
        ..st
    }
}

/// One message counted this minute.
pub open spec fn one_message() -> BucketDelta {
    BucketDelta {
        announcements: 0,
        withdrawals: 0,
        total_messages: 1,
        path_changes: 0,
        path_length_increases: 0,
        path_length_decreases: 0,
        flaps: 0,
    }
}

/// The state after the update `c` is recorded: stamped at `now`, old minutes and long
/// withdrawn sessions dropped, the message counted, the withdrawal or announcement
/// recorded, and a nonzero announcing origin remembered.
pub open spec fn after_message(st: PrefixStateView, c: CtxView) -> PrefixStateView {
    let m = minute_of(c.now);
    let st1 = PrefixStateView {
        last_update_ts: c.now,
        buckets: bucket_add(st.buckets.filter(bucket_recent(c.now)), m, one_message()),
        peers: st.peers.filter(peer_current(c.now)),
        ..st
    };
    if c.is_withdrawal {
        record_withdrawal(st1, m, c)
    } else {
        let st2 = record_announcement(st1, m, c);
        if c.origin_asn != 0 {
            PrefixStateView { last_origin_asn: c.origin_asn, ..st2 }
        } else {
            st2
        }
    }
}

/// How long a classification lasts without being renewed: outages half an hour, flaps a
/// minute, the rest ten minutes.
pub open spec fn expiry_secs(c: ClassificationType) -> int {
    if c == ClassificationType::Outage {
        1800
    } else if c == ClassificationType::Flap {
        60
    } else {
        600
    }
}

/// The classification lapses when it has not been renewed within its lifetime, and an
/// outage ends with any announcement.
pub open spec fn expire(st: PrefixStateView, now: i64, is_withdrawal: bool) -> PrefixStateView {
    if st.classified_type != ClassificationType::Unclassified && (now - st.classified_time_ts
        > expiry_secs(st.classified_type) || (st.classified_type == ClassificationType::Outage
        && !is_withdrawal)) {
        PrefixStateView { classified_type: ClassificationType::Unclassified, ..st }
    } else {
        st
    }
}

/// The origin an event is attributed to: the update's, else the last seen, else the
/// historical one.
pub open spec fn resolved_origin(c: CtxView, st: PrefixStateView, hist: u32) -> u32 {
    if c.origin_asn != 0 {
        c.origin_asn
    } else if st.last_origin_asn != 0 {
        st.last_origin_asn
    } else {
        hist
    }
}

/// Geographic data of an update: latitude and longitude bits, city and country.
pub struct GeoView {
    pub lat_bits: u32,
    pub lon_bits: u32,
    pub city: Option<Seq<char>>,
    pub country: Option<Seq<char>>,
}

/// The leak a state records, unnamed and without RPKI status.
pub open spec fn state_leak(st: PrefixStateView) -> Option<LeakView> {
    if st.leak_type != LeakType::NoLeak {
        Some(
            LeakView {
                leak_type: st.leak_type,
                leaker_asn: st.leaker_asn,
                victim_asn: st.victim_asn,
                leaker_as_name: seq![],
                victim_as_name: seq![],
                leaker_rpki_status: 0,
                victim_rpki_status: 0,
            },
        )
    } else {
        None
    }
}

/// An event with its names and RPKI statuses still to be filled in.
pub open spec fn base_event(
    prefix: Seq<char>,
    c: CtxView,
    asn: u32,
    hist: u32,
    class: ClassificationType,
    old: ClassificationType,
    incident: Option<Seq<char>>,
    start: i64,
    leak: Option<LeakView>,
    anomaly: Option<AnomalyDetails>,
    g: GeoView,
) -> EventView {
    EventView {
        prefix,
        asn,
        as_name: seq![],
        peer_ip: c.peer,
        historical_asn: hist,
        timestamp: c.now,
        classification_type: class,
        old_classification: old,
        incident_id: incident,
        incident_start_time: start,
        leak_detail: leak,
        anomaly_details: anomaly,
        source: c.source,
        lat_bits: g.lat_bits,
        lon_bits: g.lon_bits,
        city: g.city,
        country: g.country,
    }
}

/// Which classification an event for an ongoing classification reports: hijacks and
/// route leaks already reported show as discovery.
pub open spec fn ongoing_class(c: ClassificationType) -> ClassificationType {
    if c == ClassificationType::RouteLeak || c == ClassificationType::MinorRouteLeak || c
        == ClassificationType::Hijack {
        ClassificationType::Discovery
    } else {
        c
    }
}

/// The result of applying one update.
pub struct StepView {
    pub state: PrefixStateView,
    pub event: Option<EventView>,
    pub needs_timer: bool,
    pub writes: Seq<WriteView>,
}

/// The writes that record a new announcing origin under the prefix (when its text is a
/// prefix).
pub open spec fn seen_write(prefix: Seq<char>, asn: u32) -> Seq<WriteView> {
    match ipnet_parse(prefix) {
        Some(p) => seq![WriteView::Seen { prefix: p, asn }],
        None => seq![],
    }
}

/// Some session still announces the prefix.
pub open spec fn has_active(ps: Seq<(Seq<char>, AttrsView)>) -> bool {
    exists|i: int| 0 <= i < ps.len() && !#[trigger] ps[i].1.withdrawn
}

/// The state before judgement, and the writes so far: the historical origin filled in,
/// the update recorded (with a new origin recorded for a prefix with no historical
/// origin), the classification expired or not, and the update's location taken.
pub open spec fn prepare(
    st0: PrefixStateView,
    prefix: Seq<char>,
    c: CtxView,
    hist: u32,
    g: GeoView,
) -> (PrefixStateView, Seq<WriteView>) {
    let st_h = if st0.historical_origin_asn == 0 {
        PrefixStateView { historical_origin_asn: hist, ..st0 }
    } else {
        st0
    };
    let st1 = after_message(st_h, c);
    let w1 = if !c.is_withdrawal && c.origin_asn != 0 && hist == 0 {
        seen_write(prefix, c.origin_asn)
    } else {
        seq![]
    };
    let st2 = expire(st1, c.now, c.is_withdrawal);
    (
        PrefixStateView {
            lat_bits: g.lat_bits,
            lon_bits: g.lon_bits,
            city: g.city,
            country: g.country,
            ..st2
        },
        w1,
    )
}

/// The unnamed leak of a finding.
pub open spec fn finding_leak(l: Option<LeakFinding>) -> Option<LeakView> {
    match l {
        Some(l) => Some(
            LeakView {
                leak_type: l.leak_type,
                leaker_asn: l.leaker,
                victim_asn: l.victim,
                leaker_as_name: seq![],
                victim_as_name: seq![],
                leaker_rpki_status: 0,
                victim_rpki_status: 0,
            },
        ),
        None => None,
    }
}

/// The event after judgement: the judgement's event; else a transition event when the
/// classification changed from `old` (closing its incident when it lapsed); else an event
/// for the ongoing classification; else, for an announcement of a prefix with no
/// historical origin, a discovery (with the new origin recorded).
pub open spec fn emit(
    st4: PrefixStateView,
    core: Option<EventCoreView>,
    old: ClassificationType,
    prefix: Seq<char>,
    c: CtxView,
    resolved: u32,
    hist: u32,
    g: GeoView,
) -> (PrefixStateView, Option<EventView>, Seq<WriteView>) {
    match core {
        Some(e) => (
            st4,
            Some(
                base_event(
                    prefix,
                    c,
                    resolved,
                    hist,
                    e.finding.class,
                    e.old_classification,
                    e.incident_id,
                    e.incident_start_time,
                    finding_leak(e.finding.leak),
                    e.finding.anomaly,
                    g,
                ),
            ),
            seq![],
        ),
        None => {
            if st4.classified_type != old {
                let ev = base_event(
                    prefix,
                    c,
                    resolved,
                    hist,
                    st4.classified_type,
                    old,
                    st4.active_incident_id,
                    st4.classified_time_ts,
                    state_leak(st4),
                    None,
                    g,
                );
                let st = if st4.classified_type == ClassificationType::Unclassified {
                    PrefixStateView { active_incident_id: None, ..st4 }
                } else {
                    st4
                };
                (st, Some(ev), seq![])
            } else if st4.classified_type != ClassificationType::Unclassified {
                let shown = ongoing_class(st4.classified_type);
                (
                    st4,
                    Some(
                        base_event(
                            prefix,
                            c,
                            resolved,
                            hist,
                            shown,
                            shown,
                            st4.active_incident_id,
                            st4.classified_time_ts,
                            state_leak(st4),
                            None,
                            g,
                        ),
                    ),
                    seq![],
                )
            } else if !c.is_withdrawal && hist == 0 {
                (
                    st4,
                    Some(
                        base_event(
                            prefix,
                            c,
                            resolved,
                            0,
                            ClassificationType::Discovery,
                            ClassificationType::Unclassified,
                            st4.active_incident_id,
                            st4.classified_time_ts,
                            None,
                            None,
                            g,
                        ),
                    ),
                    seen_write(prefix, c.origin_asn),
                )
            } else {
                (st4, None, seq![])
            }
        },
    }
}

/// The store write at the end of an update: the prefix is dropped when no session has
/// announced it for a day, and stored when the update was a withdrawal or changed the
/// classification from `old`.
pub open spec fn store_write(
    st5: PrefixStateView,
    old: ClassificationType,
    prefix: Seq<char>,
    c: CtxView,
) -> Seq<WriteView> {
    let p_asn = if c.origin_asn != 0 {
        c.origin_asn
    } else if st5.last_origin_asn != 0 {
        st5.last_origin_asn
    } else {
        st5.historical_origin_asn
    };
    if !has_active(st5.peers) && c.now - st5.last_update_ts > 86400 {
        seq![WriteView::Delete(prefix)]
    } else if c.is_withdrawal || st5.classified_type != old {
        seq![
            WriteView::Upsert {
                prefix,
                state: st5,
                ts: st5.last_update_ts,
                c_type: classification_code(st5.classified_type),
                asn: p_asn,
            },
        ]
    } else {
        seq![]
    }
}

/// The update `c` applied to the state `st0` of `prefix`, whose historical origin is
/// `hist`: prepared (see [`prepare`]), judged (see [`evaluate`]), an event emitted (see
/// [`emit`]) and the state stored or dropped (see [`store_write`]).
pub open spec fn step(
    st0: PrefixStateView,
    prefix: Seq<char>,
    c: CtxView,
    hist: u32,
    f: Facts,
    fresh: Seq<char>,
    g: GeoView,
) -> StepView {
    let old = st0.classified_type;
    let (st3, w1) = prepare(st0, prefix, c, hist, g);
    let resolved = resolved_origin(c, st3, hist);
    let (st4, core, timer) = evaluate(st3, c.now, c.origin_asn, c.host, hist, resolved, f, old, fresh);
    let (st5, ev, w2) = emit(st4, core, old, prefix, c, resolved, hist, g);
    StepView {
        state: st5,
        event: ev,
        needs_timer: timer,
        writes: w1 + w2 + store_write(st5, old, prefix, c),
    }
}

/// The start of the minute of `now`.
pub fn minute_start(now: i64) -> (r: i64)
    ensures
        r == minute_of(now),
{
    if now >= 0 {
        now / 60 * 60
    } else {
        let mag: u64 = (-(now + 1)) as u64 + 1;
        let m: u64 = mag / 60 * 60;
        -(m as i64)
    }
}

/// The key of the session of collector `host` with peer `peer`.
pub fn session_key_of(host: &String, peer: &String) -> (r: String)
    ensures
        r@ == session_key(host@, peer@),
{
    let mut k = host.clone();
    k.append(":");
    k.append(peer.as_str());
    proof {
        reveal_strlit(":");
    }
    assert(k@ =~= session_key(host@, peer@));
    k
}

impl PrefixState {
    /// Sets session `key` to `attrs`, in place when the session has an entry.
    pub fn put_peer(&mut self, key: String, attrs: LastAttrs)
        requires
            old(self)@.wf(),
        ensures
            final(self)@ == (PrefixStateView {
                peers: peer_put(old(self)@.peers, key@, attrs@),
                ..old(self)@
            }),
            final(self)@.wf(),
    {
        let ghost ps = self@.peers;
        match self.find_peer(&key) {
            Some(i) => {
                self.peer_last_attrs.set(i, (key, attrs));
                assert(self@.peers =~= ps.update(i as int, (key@, attrs@)));
            },
            None => {
                self.peer_last_attrs.push((key, attrs));
                assert(self@.peers =~= ps.push((key@, attrs@)));
                assert forall|a: int, b: int|
                    0 <= a < self@.peers.len() && 0 <= b < self@.peers.len() && a != b implies self@.peers[a].0
                    != self@.peers[b].0 by {
                    if a == ps.len() as int {
                        assert(ps[b].0 != key@);
                    } else if b == ps.len() as int {
                        assert(ps[a].0 != key@);
                    }
                }
            },
        }
        assert(self@.buckets == old(self)@.buckets);
    }
}

/// Records a withdrawal from the session of `ctx` in minute `m` (see [`record_withdrawal`]).
pub fn apply_withdrawal(state: &mut PrefixState, m: i64, ctx: &MessageContext)
    requires
        old(state)@.wf(),
    ensures
        final(state)@ == record_withdrawal(old(state)@, m, ctx@),
        final(state)@.wf(),
{
    let key = session_key_of(&ctx.host, &ctx.peer);
    let ghost st = state@;
    match state.find_peer(&key) {
        Some(i) => {
            let was_withdrawn = state.peer_last_attrs[i].1.withdrawn;
            let mut attrs = state.peer_last_attrs[i].1.copy();
            attrs.withdrawn = true;
            attrs.last_update_ts = ctx.now;
            let d = BucketDelta {
                announcements: 0,
                withdrawals: 1,
                total_messages: 0,
                path_changes: 0,
                path_length_increases: 0,
                path_length_decreases: 0,
                flaps: if !was_withdrawn {
                    1
                } else {
                    0
                },
            };
            state.add_to_bucket(m, d);
            state.put_peer(key, attrs);
        },
        None => {
            let d = BucketDelta {
                announcements: 0,
                withdrawals: 1,
                total_messages: 0,
                path_changes: 0,
                path_length_increases: 0,
                path_length_decreases: 0,
                flaps: 0,
            };
            state.add_to_bucket(m, d);
            let attrs = LastAttrs {
                path: String::new(),
                communities: String::new(),
                next_hop: String::new(),
                aggregator: String::new(),
                last_path_len: 0,
                origin_asn: 0,
                med: None,
                local_pref: None,
                last_update_ts: ctx.now,
                host: ctx.host.clone(),
                withdrawn: true,
            };
            state.put_peer(key, attrs);
        },
    }
    if state.classified_type == ClassificationType::Outage {
        state.classified_time_ts = ctx.now;
    }
    assert(state@ =~= record_withdrawal(st, m, ctx@));
}

/// Records an announcement from the session of `ctx` in minute `m` (see
/// [`record_announcement`]).
pub fn update_announcement_stats(state: &mut PrefixState, m: i64, ctx: &MessageContext)
    requires
        old(state)@.wf(),
    ensures
        final(state)@ == record_announcement(old(state)@, m, ctx@),
        final(state)@.wf(),
{
    let key = session_key_of(&ctx.host, &ctx.peer);
    let ghost st = state@;
    let (path_changed, len_inc, len_dec, was_withdrawn) = match state.find_peer(&key) {
        Some(i) => {
            let last = &state.peer_last_attrs[i].1;
            let pc = last.path != ctx.path_str;
            let inc: u32 = if pc && ctx.path_len > last.last_path_len as usize {
                1
            } else {
                0
            };
            let dec: u32 = if pc && ctx.path_len < last.last_path_len as usize {
                1
            } else {
                0
            };
            (pc, inc, dec, last.withdrawn)
        },
        None => (true, 0u32, 0u32, false),
    };
    let d = BucketDelta {
        announcements: 1,
        withdrawals: 0,
        total_messages: 0,
        path_changes: if path_changed {
            1
        } else {
            0
        },
        path_length_increases: len_inc,
        path_length_decreases: len_dec,
        flaps: if was_withdrawn {
            1
        } else {
            0
        },
    };
    state.add_to_bucket(m, d);
    let attrs = LastAttrs {
        path: ctx.path_str.clone(),
        communities: ctx.comm_str.clone(),
        next_hop: String::new(),
        aggregator: String::new(),
        last_path_len: ctx.path_len as i32,
        origin_asn: ctx.origin_asn,
        med: None,
        local_pref: None,
        last_update_ts: ctx.now,
        host: ctx.host.clone(),
        withdrawn: false,
    };
    state.put_peer(key, attrs);
    assert(state@ =~= record_announcement(st, m, ctx@));
}

/// Records the update `ctx` (see [`after_message`]).
pub fn record_message(state: &mut PrefixState, ctx: &MessageContext)
    requires
        old(state)@.wf(),
        ctx.now >= i64::MIN + 3600,
    ensures
        final(state)@ == after_message(old(state)@, ctx@),
        final(state)@.wf(),
{
    state.last_update_ts = ctx.now;
    let m = minute_start(ctx.now);
    state.retain_recent(ctx.now);
    state.add_to_bucket(
        m,
        BucketDelta {
            announcements: 0,
            withdrawals: 0,
            total_messages: 1,
            path_changes: 0,
            path_length_increases: 0,
            path_length_decreases: 0,
            flaps: 0,
        },
    );
    if ctx.is_withdrawal {
        apply_withdrawal(state, m, ctx);
    } else {
        update_announcement_stats(state, m, ctx);
        if ctx.origin_asn != 0 {
            state.last_origin_asn = ctx.origin_asn;
        }
    }
}

/// Lets the classification lapse (see [`expire`]).
pub fn expire_classification(state: &mut PrefixState, now: i64, is_withdrawal: bool)
    requires
        i64::MIN <= now - old(state)@.classified_time_ts <= i64::MAX,
    ensures
        final(state)@ == expire(old(state)@, now, is_withdrawal),
{
    if state.classified_type != ClassificationType::Unclassified {
        let expiry: i64 = match state.classified_type {
            ClassificationType::Outage => 1800,
            ClassificationType::Flap => 60,
            _ => 600,
        };
        if now - state.classified_time_ts > expiry || (state.classified_type
            == ClassificationType::Outage && !is_withdrawal) {
            state.classified_type = ClassificationType::Unclassified;
        }
    }
}

/// The outcome of applying one update.
pub struct StepOutcome {
    pub event: Option<PendingEvent>,
    pub needs_timer: bool,
    pub writes: Vec<DbWrite>,
}

/// An event with its names and RPKI statuses still to be filled in.
#[allow(clippy::too_many_arguments)]
fn make_event(
    prefix: &String,
    ctx: &MessageContext,
    asn: u32,
    hist: u32,
    class: ClassificationType,
    old: ClassificationType,
    incident: Option<String>,
    start: i64,
    leak: Option<LeakDetail>,
    anomaly: Option<AnomalyDetails>,
    lat_bits: u32,
    lon_bits: u32,
    city: &Option<String>,
    country: &Option<String>,
) -> (r: PendingEvent)
    ensures
        r@ == base_event(
            prefix@,
            ctx@,
            asn,
            hist,
            class,
            old,
            opt_view(incident),
            start,
            opt_leak_view(leak),
            anomaly,
            GeoView { lat_bits, lon_bits, city: opt_view(*city), country: opt_view(*country) },
        ),
{
    let r = PendingEvent {
        prefix: prefix.clone(),
        asn,
        as_name: String::new(),
        peer_ip: ctx.peer.clone(),
        historical_asn: hist,
        timestamp: ctx.now,
        classification_type: class,
        old_classification: old,
        incident_id: incident,
        incident_start_time: start,
        leak_detail: leak,
        anomaly_details: anomaly,
        source: ctx.source.clone(),
        lat_bits,
        lon_bits,
        city: copy_opt(city),
        country: copy_opt(country),
    };
    r
}

/// The leak the state records, unnamed and without RPKI status.
fn leak_of_state(state: &PrefixState) -> (r: Option<LeakDetail>)
    ensures
        opt_leak_view(r) == state_leak(state@),
{
    if state.leak_type != LeakType::NoLeak {
        let r = LeakDetail {
            leak_type: state.leak_type,
            leaker_asn: state.leaker_asn,
            victim_asn: state.victim_asn,
            leaker_as_name: String::new(),
            victim_as_name: String::new(),
            leaker_rpki_status: 0,
            victim_rpki_status: 0,
        };
        assert(r@ == state_leak(state@)->0);
        Some(r)
    } else {
        None
    }
}

/// The write recording `asn` as an origin seen for `prefix`, when `prefix` is a prefix.
fn seen_writes(prefix: &String, asn: u32, out: &mut Vec<DbWrite>)
    ensures
        writes_view(final(out)@) == writes_view(old(out)@) + seen_write(prefix@, asn),
{
    let ghost before = out@;
    match parse_prefix(prefix.as_str()) {
        Some(p) => {
            out.push(DbWrite::Seen { prefix: p, asn });
            assert(writes_view(out@) =~= writes_view(before) + seen_write(prefix@, asn));
        },
        None => {
            assert(writes_view(out@) =~= writes_view(before) + seen_write(prefix@, asn));
        },
    }
}

/// Whether some session still announces.
fn any_active(state: &PrefixState) -> (r: bool)
    ensures
        r == has_active(state@.peers),
{
    let mut i: usize = 0;
    while i < state.peer_last_attrs.len()
        invariant
            i <= state.peer_last_attrs@.len(),
            state@.peers.len() == state.peer_last_attrs@.len(),
            forall|j: int| 0 <= j < i ==> state@.peers[j].1.withdrawn,
        decreases state.peer_last_attrs@.len() - i,
    {
        if !state.peer_last_attrs[i].1.withdrawn {
            assert(!state@.peers[i as int].1.withdrawn);
            return true;
        }
        i = i + 1;
    }
    false
}

/// The times one update subtracts from each other fit an `i64`.
pub open spec fn step_defined(st: PrefixStateView, now: i64) -> bool {
    judge_defined(st, now)
}

/// Prepares the state for judgement (see [`prepare`]); returns the origin events are
/// attributed to.
#[allow(clippy::too_many_arguments)]
fn prepare_state(
    state: &mut PrefixState,
    prefix: &String,
    ctx: &MessageContext,
    hist: u32,
    lat_bits: u32,
    lon_bits: u32,
    city: &Option<String>,
    country: &Option<String>,
    writes: &mut Vec<DbWrite>,
) -> (resolved: u32)
    requires
        old(state)@.wf(),
        step_defined(old(state)@, ctx.now),
        old(writes)@.len() == 0,
    ensures
        ({
            let (st3, w1) = prepare(
                old(state)@,
                prefix@,
                ctx@,
                hist,
                GeoView { lat_bits, lon_bits, city: opt_view(*city), country: opt_view(*country) },
            );
            &&& final(state)@ == st3
            &&& writes_view(final(writes)@) == w1
            &&& resolved == resolved_origin(ctx@, st3, hist)
        }),
        final(state)@.wf(),
        judge_defined(final(state)@, ctx.now),
{
    if state.historical_origin_asn == 0 {
        state.historical_origin_asn = hist;
    }
    record_message(state, ctx);
    assert(writes_view(writes@) =~= seq![]);
    if !ctx.is_withdrawal && ctx.origin_asn != 0 && hist == 0 {
        seen_writes(prefix, ctx.origin_asn, writes);
        assert(writes_view(writes@) =~= seen_write(prefix@, ctx.origin_asn));
    }
    expire_classification(state, ctx.now, ctx.is_withdrawal);
    let resolved_asn = if ctx.origin_asn != 0 {
        ctx.origin_asn
    } else if state.last_origin_asn != 0 {
        state.last_origin_asn
    } else {
        hist
    };
    state.lat_bits = lat_bits;
    state.lon_bits = lon_bits;
    state.city = copy_opt(city);
    state.country = copy_opt(country);
    resolved_asn
}

/// The unnamed leak of a finding.
fn leak_of_finding(l: Option<LeakFinding>) -> (r: Option<LeakDetail>)
    ensures
        opt_leak_view(r) == finding_leak(l),
{
    match l {
        Some(l) => {
            let d = LeakDetail {
                leak_type: l.leak_type,
                leaker_asn: l.leaker,
                victim_asn: l.victim,
                leaker_as_name: String::new(),
                victim_as_name: String::new(),
                leaker_rpki_status: 0,
                victim_rpki_status: 0,
            };
            assert(d@ == finding_leak(Some(l))->0);
            Some(d)
        },
        None => None,
    }
}

/// Emits the event that follows judgement (see [`emit`]).
#[allow(clippy::too_many_arguments)]
fn emit_event(
    state: &mut PrefixState,
    core: Option<EventCore>,
    old_classified_type: ClassificationType,
    prefix: &String,
    ctx: &MessageContext,
    resolved_asn: u32,
    hist: u32,
    lat_bits: u32,
    lon_bits: u32,
    city: &Option<String>,
    country: &Option<String>,
    writes: &mut Vec<DbWrite>,
) -> (r: Option<PendingEvent>)
    requires
        old(state)@.wf(),
    ensures
        final(state)@.wf(),
        final(state).last_update_ts == old(state).last_update_ts,
        ({
            let core_v = match core {
                Some(e) => Some(e@),
                None => None,
            };
            let (st5, ev, w2) = emit(
                old(state)@,
                core_v,
                old_classified_type,
                prefix@,
                ctx@,
                resolved_asn,
                hist,
                GeoView { lat_bits, lon_bits, city: opt_view(*city), country: opt_view(*country) },
            );
            &&& final(state)@ == st5
            &&& writes_view(final(writes)@) == writes_view(old(writes)@) + w2
            &&& match r {
                Some(e) => ev == Some(e@),
                None => ev is None,
            }
        }),
{
    let ghost before = writes@;
    match core {
        Some(e) => {
            let leak = leak_of_finding(e.finding.leak);
            assert(writes_view(writes@) =~= writes_view(before) + seq![]);
            Some(
                make_event(
                    prefix,
                    ctx,
                    resolved_asn,
                    hist,
                    e.finding.class,
                    e.old_classification,
                    e.incident_id,
                    e.incident_start_time,
                    leak,
                    e.finding.anomaly,
                    lat_bits,
                    lon_bits,
                    city,
                    country,
                ),
            )
        },
        None => {
            assert(writes_view(writes@) =~= writes_view(before) + seq![]);
            if state.classified_type != old_classified_type {
                let ev = make_event(
                    prefix,
                    ctx,
                    resolved_asn,
                    hist,
                    state.classified_type,
                    old_classified_type,
                    copy_opt(&state.active_incident_id),
                    state.classified_time_ts,
                    leak_of_state(state),
                    None,
                    lat_bits,
                    lon_bits,
                    city,
                    country,
                );
                if state.classified_type == ClassificationType::Unclassified {
                    state.active_incident_id = None;
                }
                Some(ev)
            } else if state.classified_type != ClassificationType::Unclassified {
                let shown = match state.classified_type {
                    ClassificationType::RouteLeak | ClassificationType::MinorRouteLeak
                    | ClassificationType::Hijack => ClassificationType::Discovery,
                    c => c,
                };
                Some(
                    make_event(
                        prefix,
                        ctx,
                        resolved_asn,
                        hist,
                        shown,
                        shown,
                        copy_opt(&state.active_incident_id),
                        state.classified_time_ts,
                        leak_of_state(state),
                        None,
                        lat_bits,
                        lon_bits,
                        city,
                        country,
                    ),
                )
            } else if !ctx.is_withdrawal && hist == 0 {
                let ev = make_event(
                    prefix,
                    ctx,
                    resolved_asn,
                    0,
                    ClassificationType::Discovery,
                    ClassificationType::Unclassified,
                    copy_opt(&state.active_incident_id),
                    state.classified_time_ts,
                    None,
                    None,
                    lat_bits,
                    lon_bits,
                    city,
                    country,
                );
                seen_writes(prefix, ctx.origin_asn, writes);
                Some(ev)
            } else {
                None
            }
        },
    }
}

/// Appends the store write that ends an update (see [`store_write`]).
fn push_store_write(
    state: &PrefixState,
    old_classified_type: ClassificationType,
    prefix: &String,
    ctx: &MessageContext,
    writes: &mut Vec<DbWrite>,
)
    requires
        i64::MIN <= ctx.now - state.last_update_ts <= i64::MAX,
    ensures
        writes_view(final(writes)@) == writes_view(old(writes)@) + store_write(
            state@,
            old_classified_type,
            prefix@,
            ctx@,
        ),
{
    let ghost before = writes@;
    let has_active_session = any_active(state);
    if !has_active_session && ctx.now - state.last_update_ts > 86400 {
        writes.push(DbWrite::Delete(prefix.clone()));
    } else if ctx.is_withdrawal || state.classified_type != old_classified_type {
        let p_asn = if ctx.origin_asn != 0 {
            ctx.origin_asn
        } else if state.last_origin_asn != 0 {
            state.last_origin_asn
        } else {
            state.historical_origin_asn
        };
        writes.push(
            DbWrite::Upsert {
                prefix: prefix.clone(),
                state: state.copy(),
                ts: state.last_update_ts,
                c_type: state.classified_type.as_i32(),
                asn: p_asn,
            },
        );
    }
    assert(writes_view(writes@) =~= writes_view(before) + store_write(
        state@,
        old_classified_type,
        prefix@,
        ctx@,
    ));
}

/// Applies the update `ctx` to the state of `prefix` (see [`step`]). `hist` is the
/// prefix's historical origin (the state's own when it has one), `facts` what outside
/// lookups said of the update, and `fresh` the name a newly opened incident gets.
#[allow(clippy::too_many_arguments)]
pub fn classify_step(
    state: &mut PrefixState,
    prefix: &String,
    ctx: &MessageContext,
    hist: u32,
    facts: Facts,
    fresh: &String,
    lat_bits: u32,
    lon_bits: u32,
    city: &Option<String>,
    country: &Option<String>,
) -> (r: StepOutcome)
    requires
        old(state)@.wf(),
        step_defined(old(state)@, ctx.now),
    ensures
        ({
            let sv = step(
                old(state)@,
                prefix@,
                ctx@,
                hist,
                facts,
                fresh@,
                GeoView { lat_bits, lon_bits, city: opt_view(*city), country: opt_view(*country) },
            );
            &&& final(state)@ == sv.state
            &&& r.needs_timer == sv.needs_timer
            &&& writes_view(r.writes@) == sv.writes
            &&& match r.event {
                Some(e) => sv.event == Some(e@),
                None => sv.event is None,
            }
        }),
        final(state)@.wf(),
{
    let old_classified_type = state.classified_type;
    let mut writes: Vec<DbWrite> = Vec::new();
    let resolved_asn = prepare_state(
        state,
        prefix,
        ctx,
        hist,
        lat_bits,
        lon_bits,
        city,
        country,
        &mut writes,
    );
    let (core, needs_timer) = evaluate_prefix_state(
        state,
        hist,
        resolved_asn,
        ctx,
        facts,
        old_classified_type,
        fresh,
    );
    let event = emit_event(
        state,
        core,
        old_classified_type,
        prefix,
        ctx,
        resolved_asn,
        hist,
        lat_bits,
        lon_bits,
        city,
        country,
        &mut writes,
    );
    push_store_write(state, old_classified_type, prefix, ctx, &mut writes);
    StepOutcome { event, needs_timer, writes }
}

} // verus!
