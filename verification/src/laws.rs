//! Properties of the classification rules that hold across all inputs.
use vstd::prelude::*;
use crate::types::ClassificationType;
use crate::prefix::{IpPrefix, key_v4, key_v6, octet_v4, octet_v6};
use crate::disk_trie::prefix_key;
use crate::prefix_state::{PrefixStateView, BucketDelta, bucket_add, bucket_recent, peer_current, has_peer, peer_pos};
use crate::aggregate::AggView;
use crate::decide::{
    Facts, AsnRank, anomaly, evaluate, hijack_hosts, origin_changed, is_bad,
    is_broad, route_leak, valley_at, hairpin_at,
};
use crate::text::dedup;
use crate::step::{
    CtxView, GeoView, step, step_defined, expire, expiry_secs, after_message, minute_of,
    one_message, session_key, prepare, announced_attrs, record_announcement,
};
use crate::aggregate::{aggregate, live_keys};
use crate::rolling::KeyView;
use crate::reach::reach_enough;
use crate::types::LeakType;
use crate::decide::{LeakFinding, Finding};
use crate::coverage::{v4_with, v6_with};
use crate::prefix::ipnet_parse;
use crate::classifier::{outage_due, outage_state};
use crate::lookup::{rank_of, tier1_listed, large_listed, AsInfoFacts, names_share_word};

verus! {

/// A bogon prefix is always reported as a bogon: whatever else an update shows, its
/// event is a bogon event and the prefix becomes classified as a bogon.
pub proof fn law_bogon_always_reported(
    st: PrefixStateView,
    prefix: Seq<char>,
    c: CtxView,
    hist: u32,
    f: Facts,
    fresh: Seq<char>,
    g: GeoView,
)
    requires
        st.wf(),
        step_defined(st, c.now),
        f.bogon,
    ensures
        step(st, prefix, c, hist, f, fresh, g).event matches Some(e)
            && e.classification_type == ClassificationType::Bogon,
        step(st, prefix, c, hist, f, fresh, g).state.classified_type == ClassificationType::Bogon,
{
}

/// A hijack is found only when the announcing origin differs from the known historical
/// origin, the two are not siblings, RPKI does not declare the new origin valid, and at
/// least five collectors see the new origin.
pub proof fn law_hijack_needs_five_collectors(
    a: AggView,
    elapsed: int,
    now: i64,
    origin: u32,
    host: Seq<char>,
    hist: u32,
    resolved: u32,
    f: Facts,
    fw: Option<i64>,
)
    ensures
        ({
            let (found, _) = anomaly(a, elapsed, now, origin, host, hist, resolved, f, fw);
            found matches Some(fd) && fd.class == ClassificationType::Hijack ==> {
                &&& origin_changed(origin, hist)
                &&& !f.sibling
                &&& f.origin_rpki != 1
                &&& hijack_hosts(a, host).len() >= 5
            }
        }),
{
}

/// An outage is found only after at least three sessions are known, none announces the
/// prefix, and it has been fully withdrawn for at least ten seconds.
pub proof fn law_outage_needs_quiet_period(
    a: AggView,
    elapsed: int,
    now: i64,
    origin: u32,
    host: Seq<char>,
    hist: u32,
    resolved: u32,
    f: Facts,
    fw: Option<i64>,
)
    ensures
        ({
            let (found, _) = anomaly(a, elapsed, now, origin, host, hist, resolved, f, fw);
            found matches Some(fd) && fd.class == ClassificationType::Outage ==> {
                &&& a.unique_peers.len() == 0
                &&& a.unique_peers.len() + a.withdrawn_peers.len() >= 3
                &&& fw matches Some(t) && now - t >= 10
            }
        }),
{
}

/// A judgement that opens an incident (a bad classification after a harmless one, or a
/// bad one of another kind) gives it the fresh name, from `now`; one that leaves a bad
/// classification for a harmless one closes the incident; in every reported judgement
/// the finding becomes the classification, as of `now`.
pub proof fn law_incident_lifecycle(
    st: PrefixStateView,
    now: i64,
    origin: u32,
    host: Seq<char>,
    hist: u32,
    resolved: u32,
    f: Facts,
    old: ClassificationType,
    fresh: Seq<char>,
)
    ensures
        ({
            let (st2, ev, _) = evaluate(st, now, origin, host, hist, resolved, f, old, fresh);
            ev matches Some(e) ==> {
                &&& st2.classified_type == e.finding.class
                &&& st2.classified_time_ts == now
                &&& e.old_classification == old
                &&& (is_bad(e.finding.class) && (!is_bad(old) || old != e.finding.class) ==> {
                    &&& st2.active_incident_id == Some(fresh)
                    &&& e.incident_id == Some(fresh)
                    &&& e.incident_start_time == now
                })
                &&& (!is_bad(e.finding.class) && is_bad(old) ==> st2.active_incident_id is None)
            }
        }),
{
}

/// Routine churn found within five minutes of an incident-opening classification is
/// held back: no event, and the classification stays.
pub proof fn law_churn_does_not_mask_incident(
    st: PrefixStateView,
    now: i64,
    origin: u32,
    host: Seq<char>,
    hist: u32,
    resolved: u32,
    f: Facts,
    old: ClassificationType,
    fresh: Seq<char>,
    elapsed: int,
)
    requires
        is_bad(old),
        now - st.classified_time_ts < 300,
    ensures
        ({
            let (st2, ev, _) = evaluate(st, now, origin, host, hist, resolved, f, old, fresh);
            let a = crate::aggregate::aggregate(st, now, origin);
            let fw = crate::decide::withdrawn_since(a, st, now);
            let (found, _) = anomaly(
                a,
                crate::decide::elapsed_of(a, now),
                now,
                origin,
                host,
                hist,
                resolved,
                f,
                fw,
            );
            found matches Some(fd) && is_broad(fd.class) ==> ev is None && st2.classified_type
                == st.classified_type && st2.active_incident_id == st.active_incident_id
        }),
{
}

/// A classification lapses once it has not been renewed within its lifetime (outages
/// half an hour, flaps a minute, the rest ten minutes), and any announcement ends an
/// outage; a renewed one within its lifetime stays.
pub proof fn law_classification_expiry(st: PrefixStateView, now: i64, is_withdrawal: bool)
    ensures
        st.classified_type != ClassificationType::Unclassified && now - st.classified_time_ts
            > expiry_secs(st.classified_type) ==> expire(st, now, is_withdrawal).classified_type
            == ClassificationType::Unclassified,
        st.classified_type == ClassificationType::Outage && !is_withdrawal ==> expire(
            st,
            now,
            is_withdrawal,
        ).classified_type == ClassificationType::Unclassified,
        st.classified_type != ClassificationType::Outage && now - st.classified_time_ts
            <= expiry_secs(st.classified_type) ==> expire(st, now, is_withdrawal) == st,
{
}

/// The outage timer declares an outage at most once: right after it does, none is due.
pub proof fn law_outage_declared_once(st: PrefixStateView, now: i64, fresh: Seq<char>)
    ensures
        !outage_due(outage_state(st, now, fresh), now),
{
}

/// A route leak names two neighbours on the path: the leaker sits right after the victim
/// (hairpin) or right before it (valley-free violation), and the two differ.
pub proof fn law_route_leak_on_path(path: Seq<u32>, ranks: Seq<AsnRank>)
    ensures
        route_leak(path, ranks) matches Some(l) ==> exists|i: int|
            0 <= i && i + 2 < path.len() && #[trigger] path[i + 1] == l.leaker && (l.victim
                == path[i + 2] || l.victim == path[i]) && l.leaker != l.victim,
{
    if path.len() >= 3 {
        if exists|i: int| 0 <= i < path.len() - 2 && valley_at(path, ranks, i) {
            let k = choose|i: int| 0 <= i < path.len() - 2 && valley_at(path, ranks, i);
            lemma_least_valley(path, ranks, k);
            let i = choose|i: int|
                0 <= i < path.len() - 2 && valley_at(path, ranks, i) && forall|j: int|
                    0 <= j < i ==> !valley_at(path, ranks, j);
            assert(valley_at(path, ranks, i));
            assert(path[i + 1] == route_leak(path, ranks)->0.leaker);
        } else if exists|i: int| 0 <= i < path.len() - 2 && hairpin_at(path, i) {
            let k = choose|i: int| 0 <= i < path.len() - 2 && hairpin_at(path, i);
            lemma_least_hairpin(path, k);
            let i = choose|i: int|
                0 <= i < path.len() - 2 && hairpin_at(path, i) && forall|j: int|
                    0 <= j < i ==> !hairpin_at(path, j);
            assert(hairpin_at(path, i));
            assert(path[i + 1] == route_leak(path, ranks)->0.leaker);
        }
    }
}

/// Below a valley-free violation at `k` there is a first one.
proof fn lemma_least_valley(path: Seq<u32>, ranks: Seq<AsnRank>, k: int)
    requires
        0 <= k < path.len() - 2,
        valley_at(path, ranks, k),
    ensures
        exists|i: int|
            0 <= i < path.len() - 2 && valley_at(path, ranks, i) && forall|j: int|
                0 <= j < i ==> !valley_at(path, ranks, j),
    decreases k,
{
    if exists|j: int| 0 <= j < k && valley_at(path, ranks, j) {
        let j = choose|j: int| 0 <= j < k && valley_at(path, ranks, j);
        lemma_least_valley(path, ranks, j);
    } else {
        assert(forall|j: int| 0 <= j < k ==> !valley_at(path, ranks, j));
    }
}

/// Below a hairpin at `k` there is a first one.
proof fn lemma_least_hairpin(path: Seq<u32>, k: int)
    requires
        0 <= k < path.len() - 2,
        hairpin_at(path, k),
    ensures
        exists|i: int|
            0 <= i < path.len() - 2 && hairpin_at(path, i) && forall|j: int|
                0 <= j < i ==> !hairpin_at(path, j),
    decreases k,
{
    if exists|j: int| 0 <= j < k && hairpin_at(path, j) {
        let j = choose|j: int| 0 <= j < k && hairpin_at(path, j);
        lemma_least_hairpin(path, j);
    } else {
        assert(forall|j: int| 0 <= j < k ==> !hairpin_at(path, j));
    }
}

/// A parsed AS path never repeats an AS twice in a row: prepending is collapsed.
pub proof fn law_path_has_no_repeats(s: Seq<u32>)
    ensures
        forall|i: int| 0 <= i && i + 1 < dedup(s).len() ==> #[trigger] dedup(s)[i] != dedup(s)[i + 1],
        dedup(s).len() <= s.len(),
        s.len() > 0 ==> dedup(s).len() > 0 && dedup(s).last() == s.last(),
    decreases s.len(),
{
    if s.len() > 1 {
        law_path_has_no_repeats(s.drop_last());
        let d = dedup(s.drop_last());
        if s.last() != s[s.len() - 2] {
            assert(d.last() == s.drop_last().last());
            assert forall|i: int| 0 <= i && i + 1 < dedup(s).len() implies #[trigger] dedup(s)[i]
                != dedup(s)[i + 1] by {
                if i + 1 == d.len() {
                    assert(dedup(s)[i] == d.last());
                } else {
                    assert(dedup(s)[i] == d[i]);
                    assert(dedup(s)[i + 1] == d[i + 1]);
                }
            }
        }
    }
}

/// Distinct prefixes are stored under distinct keys: the key gives the prefix back.
pub proof fn law_prefix_key_injective(p: IpPrefix, q: IpPrefix)
    requires
        prefix_key(p) == prefix_key(q),
    ensures
        p == q,
{
    match (p, q) {
        (IpPrefix::V4 { addr: a, len: la }, IpPrefix::V4 { addr: b, len: lb }) => {
            assert(key_v4(a, la)[1] == key_v4(b, lb)[1]);
            assert(key_v4(a, la)[2] == key_v4(b, lb)[2]);
            assert(key_v4(a, la)[3] == key_v4(b, lb)[3]);
            assert(key_v4(a, la)[4] == key_v4(b, lb)[4]);
            assert(key_v4(a, la)[5] == key_v4(b, lb)[5]);
            lemma_octets_v4(a, b);
        },
        (IpPrefix::V6 { addr: a, len: la }, IpPrefix::V6 { addr: b, len: lb }) => {
            assert forall|k: int| 0 <= k < 16 implies octet_v6(a, k) == octet_v6(b, k) by {
                assert(key_v6(a, la)[k + 1] == key_v6(b, lb)[k + 1]);
            }
            assert(key_v6(a, la)[17] == key_v6(b, lb)[17]);
            lemma_octets_v6(a, b);
        },
        (IpPrefix::V4 { addr: a, len: la }, IpPrefix::V6 { addr: b, len: lb }) => {
            assert(key_v4(a, la)[0] != key_v6(b, lb)[0]);
        },
        (IpPrefix::V6 { addr: a, len: la }, IpPrefix::V4 { addr: b, len: lb }) => {
            assert(key_v6(a, la)[0] != key_v4(b, lb)[0]);
        },
    }
}

/// Equal bytes make equal IPv4 addresses.
proof fn lemma_octets_v4(a: u32, b: u32)
    requires
        octet_v4(a, 0) == octet_v4(b, 0),
        octet_v4(a, 1) == octet_v4(b, 1),
        octet_v4(a, 2) == octet_v4(b, 2),
        octet_v4(a, 3) == octet_v4(b, 3),
    ensures
        a == b,
{
    let (a0, a1, a2, a3) = ((a >> 24u32) as u8, (a >> 16u32) as u8, (a >> 8u32) as u8, (a >> 0u32) as u8);
    let (b0, b1, b2, b3) = ((b >> 24u32) as u8, (b >> 16u32) as u8, (b >> 8u32) as u8, (b >> 0u32) as u8);
    assert(a0 == b0 && a1 == b1 && a2 == b2 && a3 == b3);
    assert(((a >> 24u32) as u8 == (b >> 24u32) as u8 && (a >> 16u32) as u8 == (b >> 16u32) as u8
        && (a >> 8u32) as u8 == (b >> 8u32) as u8 && (a >> 0u32) as u8 == (b >> 0u32) as u8)
        ==> a == b) by (bit_vector);
}

/// Equal bytes make equal IPv6 addresses.
proof fn lemma_octets_v6(a: u128, b: u128)
    requires
        forall|k: int| 0 <= k < 16 ==> octet_v6(a, k) == octet_v6(b, k),
    ensures
        a == b,
{
    assert(octet_v6(a, 0) == octet_v6(b, 0));
    assert(octet_v6(a, 1) == octet_v6(b, 1));
    assert(octet_v6(a, 2) == octet_v6(b, 2));
    assert(octet_v6(a, 3) == octet_v6(b, 3));
    assert(octet_v6(a, 4) == octet_v6(b, 4));
    assert(octet_v6(a, 5) == octet_v6(b, 5));
    assert(octet_v6(a, 6) == octet_v6(b, 6));
    assert(octet_v6(a, 7) == octet_v6(b, 7));
    assert(octet_v6(a, 8) == octet_v6(b, 8));
    assert(octet_v6(a, 9) == octet_v6(b, 9));
    assert(octet_v6(a, 10) == octet_v6(b, 10));
    assert(octet_v6(a, 11) == octet_v6(b, 11));
    assert(octet_v6(a, 12) == octet_v6(b, 12));
    assert(octet_v6(a, 13) == octet_v6(b, 13));
    assert(octet_v6(a, 14) == octet_v6(b, 14));
    assert(octet_v6(a, 15) == octet_v6(b, 15));
    let hi_a = (a >> 64u32) as u64;
    let hi_b = (b >> 64u32) as u64;
    let lo_a = a as u64;
    let lo_b = b as u64;
    assert((a >> 120u32) as u8 == (b >> 120u32) as u8 && (a >> 112u32) as u8 == (b >> 112u32) as u8
        && (a >> 104u32) as u8 == (b >> 104u32) as u8 && (a >> 96u32) as u8 == (b >> 96u32) as u8
        && (a >> 88u32) as u8 == (b >> 88u32) as u8 && (a >> 80u32) as u8 == (b >> 80u32) as u8
        && (a >> 72u32) as u8 == (b >> 72u32) as u8 && (a >> 64u32) as u8 == (b >> 64u32) as u8
        && (a >> 56u32) as u8 == (b >> 56u32) as u8 && (a >> 48u32) as u8 == (b >> 48u32) as u8
        && (a >> 40u32) as u8 == (b >> 40u32) as u8 && (a >> 32u32) as u8 == (b >> 32u32) as u8
        && (a >> 24u32) as u8 == (b >> 24u32) as u8 && (a >> 16u32) as u8 == (b >> 16u32) as u8
        && (a >> 8u32) as u8 == (b >> 8u32) as u8 && (a >> 0u32) as u8 == (b >> 0u32) as u8
        ==> a == b) by (bit_vector);
}

/// Networks listed as tier-1 or large keep that rank whatever their AS information says.
pub proof fn law_listed_ranks_stand(asn: u32, info: Option<AsInfoFacts>)
    ensures
        tier1_listed(asn) ==> rank_of(asn, info).tier1,
        large_listed(asn) ==> rank_of(asn, info).large,
{
}

/// Sharing a sibling word does not depend on the order of the two names.
pub proof fn law_sibling_words_symmetric(n1: Seq<char>, n2: Seq<char>)
    ensures
        names_share_word(n1, n2) == names_share_word(n2, n1),
{
}

/// Adding increments to the bucket of minute `m` keeps every bucket at or after `lo`
/// when `m` is.
proof fn lemma_bucket_add_bound(
    bs: Seq<(i64, crate::types::StatsBucket)>,
    m: i64,
    d: crate::prefix_state::BucketDelta,
    lo: int,
)
    requires
        m >= lo,
        forall|i: int| 0 <= i < bs.len() ==> #[trigger] bs[i].0 >= lo,
    ensures
        forall|i: int|
            0 <= i < bucket_add(bs, m, d).len() ==> #[trigger] bucket_add(bs, m, d)[i].0 >= lo,
{
}

/// After an update at `now`, the prefix keeps counters only for the minutes of the last
/// ten minutes.
pub proof fn law_recent_minutes_only(st: PrefixStateView, c: CtxView)
    requires
        c.now >= i64::MIN + 3600,
    ensures
        forall|i: int|
            0 <= i < after_message(st, c).buckets.len() ==> #[trigger] after_message(
                st,
                c,
            ).buckets[i].0 >= c.now - 600,
{
    let f = st.buckets.filter(bucket_recent(c.now));
    assert forall|i: int| 0 <= i < f.len() implies #[trigger] f[i].0 >= c.now - 600 by {
        st.buckets.lemma_filter_pred(bucket_recent(c.now), i);
    }
    let m = minute_of(c.now);
    assert(m >= c.now - 600);
    lemma_bucket_add_bound(f, m, one_message(), c.now - 600);
    let b1 = bucket_add(f, m, one_message());
    let k = session_key(c.host, c.peer);
    let st1 = PrefixStateView {
        last_update_ts: c.now,
        buckets: b1,
        peers: st.peers.filter(peer_current(c.now)),
        ..st
    };
    if c.is_withdrawal {
        let known = has_peer(st1.peers, k);
        let flap = known && !st1.peers[peer_pos(st1.peers, k)].1.withdrawn;
        let d = BucketDelta {
            announcements: 0,
            withdrawals: 1,
            total_messages: 0,
            path_changes: 0,
            path_length_increases: 0,
            path_length_decreases: 0,
            flaps: if flap {
                1
            } else {
                0
            },
        };
        lemma_bucket_add_bound(b1, m, d, c.now - 600);
    } else {
        let known = has_peer(st1.peers, k);
        let last = st1.peers[peer_pos(st1.peers, k)].1;
        let changed = !known || last.path != c.path_str;
        let longer = known && changed && c.path_len > last.last_path_len as usize;
        let shorter = known && changed && c.path_len < last.last_path_len as usize;
        let d = BucketDelta {
            announcements: 1,
            withdrawals: 0,
            total_messages: 0,
            path_changes: if changed {
                1
            } else {
                0
            },
            path_length_increases: if longer {
                1
            } else {
                0
            },
            path_length_decreases: if shorter {
                1
            } else {
                0
            },
            flaps: if known && last.withdrawn {
                1
            } else {
                0
            },
        };
        lemma_bucket_add_bound(b1, m, d, c.now - 600);
    }
}

/// An announcement never asks the outage timer to look at its prefix again: the
/// announcing session is recorded as live with the update's origin, so the prefix is not
/// withdrawn everywhere.
pub proof fn law_announcement_needs_no_timer(
    st: PrefixStateView,
    prefix: Seq<char>,
    c: CtxView,
    hist: u32,
    f: Facts,
    fresh: Seq<char>,
    g: GeoView,
)
    requires
        !c.is_withdrawal,
    ensures
        !step(st, prefix, c, hist, f, fresh, g).needs_timer,
{
    let (st3, _w) = prepare(st, prefix, c, hist, g);
    let k = session_key(c.host, c.peer);
    let st_h = if st.historical_origin_asn == 0 {
        PrefixStateView { historical_origin_asn: hist, ..st }
    } else {
        st
    };
    let m = minute_of(c.now);
    let st1 = PrefixStateView {
        last_update_ts: c.now,
        buckets: bucket_add(st_h.buckets.filter(bucket_recent(c.now)), m, one_message()),
        peers: st_h.peers.filter(peer_current(c.now)),
        ..st_h
    };
    let ps = record_announcement(st1, m, c).peers;
    assert(st3.peers == ps);
    let pos = if has_peer(st1.peers, k) {
        peer_pos(st1.peers, k)
    } else {
        st1.peers.len() as int
    };
    assert(0 <= pos < ps.len() && ps[pos].0 == k && ps[pos].1 == announced_attrs(c));
    let a = aggregate(st3, c.now, c.origin_asn);
    let n = ps.len() as int;
    let keys = ps.map_values(|e: (Seq<char>, crate::prefix_state::AttrsView)| e.0).to_set();
    assert(ps.map_values(|e: (Seq<char>, crate::prefix_state::AttrsView)| e.0)[pos] == k);
    assert(live_keys(ps, c.origin_asn, n).contains(k));
    assert(live_keys(ps, c.origin_asn, n).subset_of(keys)) by {
        assert forall|x: Seq<char>| live_keys(ps, c.origin_asn, n).contains(x) implies keys.contains(x) by {
            let i = choose|i: int|
                0 <= i < n && #[trigger] ps[i].0 == x && !ps[i].1.withdrawn && ps[i].1.origin_asn
                    == c.origin_asn;
            assert(ps.map_values(|e: (Seq<char>, crate::prefix_state::AttrsView)| e.0)[i] == x);
        }
    }
    vstd::set_lib::lemma_len_subset(live_keys(ps, c.origin_asn, n), keys);
    vstd::set_lib::lemma_set_empty_equivalency_len(a.unique_peers);
    assert(a.unique_peers.len() != 0);
}

/// A re-check request comes with no finding, and a finding is never "unclassified" or a
/// discovery: those two are what routine updates are classified as, not anomalies.
pub proof fn law_anomaly_findings(
    a: AggView,
    elapsed: int,
    now: i64,
    origin: u32,
    host: Seq<char>,
    hist: u32,
    resolved: u32,
    f: Facts,
    fw: Option<i64>,
)
    ensures
        anomaly(a, elapsed, now, origin, host, hist, resolved, f, fw).1 ==> anomaly(
            a,
            elapsed,
            now,
            origin,
            host,
            hist,
            resolved,
            f,
            fw,
        ).0 is None,
        anomaly(a, elapsed, now, origin, host, hist, resolved, f, fw).0 matches Some(fd) ==> fd.class
            != ClassificationType::Unclassified && fd.class != ClassificationType::Discovery,
{
}

/// A route leak is a full route leak only when at least five collectors announce the
/// prefix with the update's origin; seen by two to four it is a minor route leak.
pub proof fn law_route_leak_needs_five_collectors(
    a: AggView,
    elapsed: int,
    now: i64,
    origin: u32,
    host: Seq<char>,
    hist: u32,
    resolved: u32,
    f: Facts,
    fw: Option<i64>,
)
    ensures
        anomaly(a, elapsed, now, origin, host, hist, resolved, f, fw).0 matches Some(fd)
            && fd.class == ClassificationType::RouteLeak ==> a.unique_hosts.len() >= 5,
        anomaly(a, elapsed, now, origin, host, hist, resolved, f, fw).0 matches Some(fd)
            && fd.class == ClassificationType::MinorRouteLeak ==> 2 <= a.unique_hosts.len() < 5,
{
}

/// A valley-free violation is reported at the first position where a tier-1 or large
/// network is followed by a network that is not tier-1 and then by a tier-1 or large
/// network, all three distinct: the middle network leaks the last one's route.
pub proof fn law_valley_free_violation_reported(path: Seq<u32>, ranks: Seq<AsnRank>, i: int)
    requires
        ranks.len() == path.len(),
        0 <= i,
        i + 2 < path.len(),
        ranks[i].tier1 || ranks[i].large,
        !ranks[i + 1].tier1,
        ranks[i + 2].tier1 || ranks[i + 2].large,
        path[i] != path[i + 1] && path[i + 1] != path[i + 2] && path[i] != path[i + 2],
        forall|j: int|
            0 <= j < i ==> !((#[trigger] ranks[j].tier1 || ranks[j].large) && !ranks[j + 1].tier1 && (
            ranks[j + 2].tier1 || ranks[j + 2].large) && path[j] != path[j + 1] && path[j + 1]
                != path[j + 2] && path[j] != path[j + 2]),
    ensures
        route_leak(path, ranks) == Some(
            LeakFinding {
                leak_type: LeakType::ValleyFreeViolation,
                leaker: path[i + 1],
                victim: path[i + 2],
            },
        ),
{
    assert(valley_at(path, ranks, i));
    assert forall|j: int| 0 <= j < i implies !valley_at(path, ranks, j) by {
        assert(ranks[j].tier1 == ranks[j].tier1);
    }
    let k = choose|k: int|
        0 <= k < path.len() - 2 && valley_at(path, ranks, k) && forall|j: int|
            0 <= j < k ==> !valley_at(path, ranks, j);
    assert(0 <= i < path.len() - 2 && valley_at(path, ranks, i) && forall|j: int|
        0 <= j < i ==> !valley_at(path, ranks, j));
    if k < i {
        assert(!valley_at(path, ranks, k));
    } else if k > i {
        assert(!valley_at(path, ranks, i));
    }
    assert(k == i);
}

/// A group keyed by origin AS is reported from 5000 IPv4 addresses or 500 IPv6 prefixes,
/// and not below both; by location likewise; by organisation from 20000 addresses; by
/// country from 50000.
pub proof fn law_reach_thresholds(key: KeyView, ipv4: u64, ipv6: u32)
    ensures
        key is Asn ==> (reach_enough(key, ipv4, ipv6) <==> (ipv4 >= 5000 || ipv6 >= 500)),
        key is Location ==> (reach_enough(key, ipv4, ipv6) <==> (ipv4 >= 5000 || ipv6 >= 500)),
        key is Organization ==> (reach_enough(key, ipv4, ipv6) <==> (ipv4 >= 20000 || ipv6
            >= 500)),
        key is Country ==> (reach_enough(key, ipv4, ipv6) <==> (ipv4 >= 50000 || ipv6 >= 500)),
{
}

/// One more stored prefix with origin `origin` and RPKI code `code` counts as invalid
/// only when its origin is known and the code is 2 (invalid), as valid only when its
/// origin is known and the code is 1 (valid), and as not found otherwise (no origin, no
/// verdict, or code 3, unknown): it joins that standing's prefixes and leaves the others.
pub proof fn law_rpki_standing_of_a_row(
    rows: Seq<(Seq<char>, u32)>,
    codes: Seq<i32>,
    p: Seq<char>,
    origin: u32,
    code: i32,
)
    requires
        rows.len() == codes.len(),
    ensures
        !(origin != 0 && code == 2) ==> v4_with(rows.push((p, origin)), codes.push(code), 2)
            == v4_with(rows, codes, 2) && v6_with(rows.push((p, origin)), codes.push(code), 2)
            == v6_with(rows, codes, 2),
        !(origin != 0 && code == 1) ==> v4_with(rows.push((p, origin)), codes.push(code), 1)
            == v4_with(rows, codes, 1) && v6_with(rows.push((p, origin)), codes.push(code), 1)
            == v6_with(rows, codes, 1),
        (origin != 0 && (code == 1 || code == 2)) ==> v4_with(
            rows.push((p, origin)),
            codes.push(code),
            3,
        ) == v4_with(rows, codes, 3) && v6_with(rows.push((p, origin)), codes.push(code), 3)
            == v6_with(rows, codes, 3),
        ({
            let st: int = if origin != 0 && code == 1 {
                1
            } else if origin != 0 && code == 2 {
                2
            } else {
                3
            };
            &&& (ipnet_parse(p) matches Some(crate::prefix::IpPrefix::V4 { addr, len }) ==> v4_with(
                rows.push((p, origin)),
                codes.push(code),
                st,
            ) == v4_with(rows, codes, st).push((addr, len)))
            &&& (ipnet_parse(p) matches Some(crate::prefix::IpPrefix::V6 { .. }) ==> v6_with(
                rows.push((p, origin)),
                codes.push(code),
                st,
            ) == v6_with(rows, codes, st) + 1)
        }),
{
    assert(rows.push((p, origin)).drop_last() =~= rows);
    assert(codes.push(code).drop_last() =~= codes);
}

} // verus!
