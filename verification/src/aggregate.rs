//! Totals over the recent minutes and the sessions of a prefix.
use vstd::prelude::*;
use crate::types::{StatsBucket, LastAttrs};
use crate::prefix_state::{wadd, AttrsView, PrefixState, PrefixStateView};

verus! {

/// Counter totals over the buckets of the last ten minutes, and the earliest such minute.
pub struct Totals {
    pub earliest_ts: i64,
    pub total_ann: u32,
    pub total_with: u32,
    pub total_msgs: u32,
    pub path_changes: u32,
    pub path_len_inc: u32,
    pub path_len_dec: u32,
    pub total_flaps: u32,
}

/// The totals over those buckets of `bs` no older than ten minutes before `now`; the
/// earliest minute starts at `now`. Counters wrap at 32 bits.
pub open spec fn totals(bs: Seq<(i64, StatsBucket)>, now: i64) -> Totals
    decreases bs.len(),
{
    if bs.len() == 0 {
        Totals {
            earliest_ts: now,
            total_ann: 0,
            total_with: 0,
            total_msgs: 0,
            path_changes: 0,
            path_len_inc: 0,
            path_len_dec: 0,
            total_flaps: 0,
        }
    } else {
        let t = totals(bs.drop_last(), now);
        let (ts, b) = bs.last();
        if ts < now - 600 {
            t
        } else {
            Totals {
                earliest_ts: if ts < t.earliest_ts {
                    ts
                } else {
                    t.earliest_ts
                },
                total_ann: wadd(t.total_ann, b.announcements),
                total_with: wadd(t.total_with, b.withdrawals),
                total_msgs: wadd(t.total_msgs, b.total_messages),
                path_changes: wadd(t.path_changes, b.path_changes),
                path_len_inc: wadd(t.path_len_inc, b.path_length_increases),
                path_len_dec: wadd(t.path_len_dec, b.path_length_decreases),
                total_flaps: wadd(t.total_flaps, b.flaps),
            }
        }
    }
}

/// Sessions among the first `n` whose route is announced with origin `origin`.
pub open spec fn live_keys(ps: Seq<(Seq<char>, AttrsView)>, origin: u32, n: int) -> Set<Seq<char>> {
    Set::new(
        |k: Seq<char>|
            exists|i: int|
                0 <= i < n && #[trigger] ps[i].0 == k && !ps[i].1.withdrawn && ps[i].1.origin_asn
                    == origin,
    )
}

/// Collectors among the first `n` sessions whose route is announced with origin `origin`.
pub open spec fn live_hosts(ps: Seq<(Seq<char>, AttrsView)>, origin: u32, n: int) -> Set<Seq<char>> {
    Set::new(
        |h: Seq<char>|
            exists|i: int|
                0 <= i < n && #[trigger] ps[i].1.host == h && !ps[i].1.withdrawn
                    && ps[i].1.origin_asn == origin,
    )
}

/// Collectors of the first `n` sessions.
pub open spec fn any_hosts(ps: Seq<(Seq<char>, AttrsView)>, n: int) -> Set<Seq<char>> {
    Set::new(|h: Seq<char>| exists|i: int| 0 <= i < n && #[trigger] ps[i].1.host == h)
}

/// Withdrawn sessions among the first `n`.
pub open spec fn withdrawn_keys(ps: Seq<(Seq<char>, AttrsView)>, n: int) -> Set<Seq<char>> {
    Set::new(
        |k: Seq<char>| exists|i: int| 0 <= i < n && #[trigger] ps[i].0 == k && ps[i].1.withdrawn,
    )
}

/// What the decisions read of a prefix's recent activity.
pub struct AggView {
    pub totals: Totals,
    pub unique_peers: Set<Seq<char>>,
    pub unique_hosts: Set<Seq<char>>,
    pub all_unique_hosts: Set<Seq<char>>,
    pub withdrawn_peers: Set<Seq<char>>,
}

/// The recent activity of a prefix at `now`, with sessions counted as live when they
/// announce `origin`.
pub open spec fn aggregate(st: PrefixStateView, now: i64, origin: u32) -> AggView {
    let n = st.peers.len() as int;
    AggView {
        totals: totals(st.buckets, now),
        unique_peers: live_keys(st.peers, origin, n),
        unique_hosts: live_hosts(st.peers, origin, n),
        all_unique_hosts: any_hosts(st.peers, n),
        withdrawn_peers: withdrawn_keys(st.peers, n),
    }
}

/// The views of a list of texts.
pub open spec fn strs(v: Seq<String>) -> Seq<Seq<char>> {
    v.map_values(|s: String| s@)
}

/// Totals and session summaries of a prefix's recent activity.
pub struct AggregatedStats {
    pub earliest_ts: i64,
    pub total_ann: u32,
    pub total_with: u32,
    pub total_msgs: u32,
    pub path_changes: u32,
    pub path_len_inc: u32,
    pub path_len_dec: u32,
    pub total_flaps: u32,
    pub unique_peers: Vec<String>,
    pub unique_hosts: Vec<String>,
    pub all_unique_hosts: Vec<String>,
    pub withdrawn_peers: Vec<String>,
    pub peer_attrs_values: Vec<LastAttrs>,
}

/// The views of a list of attributes.
pub open spec fn values_view(v: Seq<LastAttrs>) -> Seq<AttrsView> {
    v.map_values(|x: LastAttrs| x@)
}

/// The attributes of a session list.
pub open spec fn entries_attrs(ps: Seq<(Seq<char>, AttrsView)>) -> Seq<AttrsView> {
    ps.map_values(|e: (Seq<char>, AttrsView)| e.1)
}

/// A list of distinct texts that holds exactly the set `s`.
pub open spec fn lists_set(v: Seq<String>, s: Set<Seq<char>>) -> bool {
    &&& strs(v).no_duplicates()
    &&& strs(v).to_set() == s
    &&& v.len() == s.len()
    &&& s.finite()
}

impl AggregatedStats {
    /// Empty totals whose earliest minute starts at `now`.
    pub fn new(now: i64) -> (r: Self)
        ensures
            r.earliest_ts == now,
            r.total_ann == 0 && r.total_with == 0 && r.total_msgs == 0 && r.path_changes == 0,
            r.path_len_inc == 0 && r.path_len_dec == 0 && r.total_flaps == 0,
            r.unique_peers@.len() == 0 && r.unique_hosts@.len() == 0,
            r.all_unique_hosts@.len() == 0 && r.withdrawn_peers@.len() == 0,
            r.peer_attrs_values@.len() == 0,
    {
        AggregatedStats {
            earliest_ts: now,
            total_ann: 0,
            total_with: 0,
            total_msgs: 0,
            path_changes: 0,
            path_len_inc: 0,
            path_len_dec: 0,
            total_flaps: 0,
            unique_peers: Vec::new(),
            unique_hosts: Vec::new(),
            all_unique_hosts: Vec::new(),
            withdrawn_peers: Vec::new(),
            peer_attrs_values: Vec::new(),
        }
    }

    /// The totals and the sets of the summaries.
    pub open spec fn agg(&self) -> AggView {
        AggView {
            totals: Totals {
                earliest_ts: self.earliest_ts,
                total_ann: self.total_ann,
                total_with: self.total_with,
                total_msgs: self.total_msgs,
                path_changes: self.path_changes,
                path_len_inc: self.path_len_inc,
                path_len_dec: self.path_len_dec,
                total_flaps: self.total_flaps,
            },
            unique_peers: strs(self.unique_peers@).to_set(),
            unique_hosts: strs(self.unique_hosts@).to_set(),
            all_unique_hosts: strs(self.all_unique_hosts@).to_set(),
            withdrawn_peers: strs(self.withdrawn_peers@).to_set(),
        }
    }

    /// Each summary list holds distinct texts, as many as its set has, and the session
    /// counts fit a `usize` together.
    pub open spec fn lists_ok(&self) -> bool {
        &&& lists_set(self.unique_peers@, self.agg().unique_peers)
        &&& lists_set(self.unique_hosts@, self.agg().unique_hosts)
        &&& lists_set(self.all_unique_hosts@, self.agg().all_unique_hosts)
        &&& lists_set(self.withdrawn_peers@, self.agg().withdrawn_peers)
        &&& self.unique_peers@.len() + self.withdrawn_peers@.len() <= usize::MAX
    }

    /// These totals and summaries are those of `a`, and the attribute list is `ps`'s.
    pub open spec fn matches(&self, a: AggView, ps: Seq<(Seq<char>, AttrsView)>) -> bool {
        &&& self.earliest_ts == a.totals.earliest_ts
        &&& self.total_ann == a.totals.total_ann
        &&& self.total_with == a.totals.total_with
        &&& self.total_msgs == a.totals.total_msgs
        &&& self.path_changes == a.totals.path_changes
        &&& self.path_len_inc == a.totals.path_len_inc
        &&& self.path_len_dec == a.totals.path_len_dec
        &&& self.total_flaps == a.totals.total_flaps
        &&& lists_set(self.unique_peers@, a.unique_peers)
        &&& lists_set(self.unique_hosts@, a.unique_hosts)
        &&& lists_set(self.all_unique_hosts@, a.all_unique_hosts)
        &&& lists_set(self.withdrawn_peers@, a.withdrawn_peers)
        &&& values_view(self.peer_attrs_values@) == entries_attrs(ps)
        &&& self.agg() == a
        &&& self.lists_ok()
    }
}

/// Whether the text `s` is in the list `v`.
pub fn contains_str(v: &Vec<String>, s: &String) -> (r: bool)
    ensures
        r == strs(v@).contains(s@),
{
    let mut i: usize = 0;
    while i < v.len()
        invariant
            i <= v@.len(),
            forall|j: int| 0 <= j < i ==> strs(v@)[j] != s@,
        decreases v@.len() - i,
    {
        if v[i] == *s {
            assert(strs(v@)[i as int] == s@);
            return true;
        }
        i = i + 1;
    }
    false
}

/// Appends `s` to a list that does not hold it, keeping the list's set in step.
proof fn lemma_push_fresh(v: Seq<String>, s: String, set: Set<Seq<char>>)
    requires
        strs(v).no_duplicates(),
        strs(v).to_set() == set,
        !set.contains(s@),
    ensures
        strs(v.push(s)).no_duplicates(),
        strs(v.push(s)).to_set() == set.insert(s@),
{
    assert(strs(v.push(s)) =~= strs(v).push(s@));
    assert(!strs(v).contains(s@));
    assert forall|x: Seq<char>| strs(v.push(s)).to_set().contains(x) <==> set.insert(s@).contains(x) by {
        if strs(v.push(s)).contains(x) {
            let j = choose|j: int| 0 <= j < strs(v.push(s)).len() && strs(v.push(s))[j] == x;
            if j < v.len() {
                assert(strs(v)[j] == x);
                assert(strs(v).contains(x));
            }
        }
        if strs(v).contains(x) {
            let j = choose|j: int| 0 <= j < strs(v).len() && strs(v)[j] == x;
            assert(strs(v.push(s))[j] == x);
        }
        if x == s@ {
            assert(strs(v.push(s))[v.len() as int] == x);
        }
    }
    assert(strs(v.push(s)).to_set() =~= set.insert(s@));
}

/// Counts for a list of distinct texts and its set.
proof fn lemma_lists_set(v: Seq<String>, s: Set<Seq<char>>)
    requires
        strs(v).no_duplicates(),
        strs(v).to_set() == s,
    ensures
        lists_set(v, s),
{
    strs(v).unique_seq_to_set();
    assert(strs(v).len() == v.len());
}

/// The totals and session summaries of `state`'s activity in the ten minutes before
/// `now`, with sessions counted as live when they announce `current_origin_asn`.
pub fn aggregate_recent_buckets(state: &PrefixState, now: i64, current_origin_asn: u32) -> (r: AggregatedStats)
    requires
        state@.wf(),
        now >= i64::MIN + 600,
    ensures
        r.matches(aggregate(state@, now, current_origin_asn), state@.peers),
{
    let mut s = AggregatedStats::new(now);
    let cutoff = now - 600;
    let mut i: usize = 0;
    while i < state.buckets.len()
        invariant
            i <= state.buckets@.len(),
            cutoff == now - 600,
            ({
                let t = totals(state.buckets@.take(i as int), now);
                &&& s.earliest_ts == t.earliest_ts
                &&& s.total_ann == t.total_ann
                &&& s.total_with == t.total_with
                &&& s.total_msgs == t.total_msgs
                &&& s.path_changes == t.path_changes
                &&& s.path_len_inc == t.path_len_inc
                &&& s.path_len_dec == t.path_len_dec
                &&& s.total_flaps == t.total_flaps
            }),
            s.unique_peers@.len() == 0 && s.unique_hosts@.len() == 0,
            s.all_unique_hosts@.len() == 0 && s.withdrawn_peers@.len() == 0,
            s.peer_attrs_values@.len() == 0,
        decreases state.buckets@.len() - i,
    {
        let (ts, b) = state.buckets[i];
        assert(state.buckets@.take(i + 1).drop_last() =~= state.buckets@.take(i as int));
        if ts >= cutoff {
            if ts < s.earliest_ts {
                s.earliest_ts = ts;
            }
            s.total_ann = s.total_ann.wrapping_add(b.announcements);
            s.total_with = s.total_with.wrapping_add(b.withdrawals);
            s.total_msgs = s.total_msgs.wrapping_add(b.total_messages);
            s.path_changes = s.path_changes.wrapping_add(b.path_changes);
            s.path_len_inc = s.path_len_inc.wrapping_add(b.path_length_increases);
            s.path_len_dec = s.path_len_dec.wrapping_add(b.path_length_decreases);
            s.total_flaps = s.total_flaps.wrapping_add(b.flaps);
        }
        i = i + 1;
    }
    assert(state.buckets@.take(i as int) =~= state.buckets@);
    let ghost ps = state@.peers;
    let mut i: usize = 0;
    while i < state.peer_last_attrs.len()
        invariant
            i <= state.peer_last_attrs@.len(),
            ps == state@.peers,
            ps.len() == state.peer_last_attrs@.len(),
            state@.wf(),
            ({
                let t = totals(state.buckets@, now);
                &&& s.earliest_ts == t.earliest_ts
                &&& s.total_ann == t.total_ann
                &&& s.total_with == t.total_with
                &&& s.total_msgs == t.total_msgs
                &&& s.path_changes == t.path_changes
                &&& s.path_len_inc == t.path_len_inc
                &&& s.path_len_dec == t.path_len_dec
                &&& s.total_flaps == t.total_flaps
            }),
            s.unique_peers@.len() + s.withdrawn_peers@.len() <= i,
            strs(s.unique_peers@).no_duplicates(),
            strs(s.unique_peers@).to_set() == live_keys(ps, current_origin_asn, i as int),
            strs(s.unique_hosts@).no_duplicates(),
            strs(s.unique_hosts@).to_set() == live_hosts(ps, current_origin_asn, i as int),
            strs(s.all_unique_hosts@).no_duplicates(),
            strs(s.all_unique_hosts@).to_set() == any_hosts(ps, i as int),
            strs(s.withdrawn_peers@).no_duplicates(),
            strs(s.withdrawn_peers@).to_set() == withdrawn_keys(ps, i as int),
            values_view(s.peer_attrs_values@) == entries_attrs(ps.take(i as int)),
        decreases state.peer_last_attrs@.len() - i,
    {
        let ghost e = ps[i as int];
        let key = &state.peer_last_attrs[i].0;
        let attr = &state.peer_last_attrs[i].1;
        assert(key@ == e.0 && attr@ == e.1);
        let ghost old_vals = s.peer_attrs_values@;
        let c = attr.copy();
        s.peer_attrs_values.push(c);
        assert(values_view(s.peer_attrs_values@) =~= entries_attrs(ps.take(i + 1))) by {
            assert(values_view(s.peer_attrs_values@) =~= values_view(old_vals).push(c@));
            assert(ps.take(i + 1) =~= ps.take(i as int).push(e));
            assert(entries_attrs(ps.take(i + 1)) =~= entries_attrs(ps.take(i as int)).push(e.1));
        }
        // every collector
        let ghost all_before = any_hosts(ps, i as int);
        if !contains_str(&s.all_unique_hosts, &attr.host) {
            proof {
                lemma_push_fresh(s.all_unique_hosts@, attr.host, all_before);
            }
            s.all_unique_hosts.push(attr.host.clone());
        }
        assert(strs(s.all_unique_hosts@).to_set() =~= any_hosts(ps, i + 1)) by {
            assert forall|h: Seq<char>| any_hosts(ps, i + 1).contains(h) implies strs(
                s.all_unique_hosts@,
            ).to_set().contains(h) by {
                let j = choose|j: int| 0 <= j < i + 1 && #[trigger] ps[j].1.host == h;
                if j < i {
                    assert(all_before.contains(h));
                }
            }
            assert forall|h: Seq<char>| strs(s.all_unique_hosts@).to_set().contains(h) implies any_hosts(
                ps,
                i + 1,
            ).contains(h) by {
                if all_before.contains(h) {
                    let j = choose|j: int| 0 <= j < i && #[trigger] ps[j].1.host == h;
                    assert(ps[j].1.host == h);
                } else {
                    assert(ps[i as int].1.host == h);
                }
            }
        }
        let ghost wk_before = withdrawn_keys(ps, i as int);
        let ghost lk_before = live_keys(ps, current_origin_asn, i as int);
        let ghost lh_before = live_hosts(ps, current_origin_asn, i as int);
        proof {
            assert(!wk_before.contains(key@) && !lk_before.contains(key@)) by {
                if wk_before.contains(key@) {
                    let j = choose|j: int| 0 <= j < i && #[trigger] ps[j].0 == key@ && ps[j].1.withdrawn;
                    assert(ps[j].0 != ps[i as int].0);
                }
                if lk_before.contains(key@) {
                    let j = choose|j: int|
                        0 <= j < i && #[trigger] ps[j].0 == key@ && !ps[j].1.withdrawn
                            && ps[j].1.origin_asn == current_origin_asn;
                    assert(ps[j].0 != ps[i as int].0);
                }
            }
        }
        if attr.withdrawn {
            proof {
                lemma_push_fresh(s.withdrawn_peers@, *key, wk_before);
            }
            s.withdrawn_peers.push(key.clone());
        } else if attr.origin_asn == current_origin_asn {
            proof {
                lemma_push_fresh(s.unique_peers@, *key, lk_before);
            }
            s.unique_peers.push(key.clone());
            if !contains_str(&s.unique_hosts, &attr.host) {
                proof {
                    lemma_push_fresh(s.unique_hosts@, attr.host, lh_before);
                }
                s.unique_hosts.push(attr.host.clone());
            }
        }
        assert(strs(s.withdrawn_peers@).to_set() =~= withdrawn_keys(ps, i + 1)) by {
            assert forall|k: Seq<char>| withdrawn_keys(ps, i + 1).contains(k) implies strs(
                s.withdrawn_peers@,
            ).to_set().contains(k) by {
                let j = choose|j: int| 0 <= j < i + 1 && #[trigger] ps[j].0 == k && ps[j].1.withdrawn;
                if j < i {
                    assert(wk_before.contains(k));
                }
            }
            assert forall|k: Seq<char>| strs(s.withdrawn_peers@).to_set().contains(k) implies withdrawn_keys(
                ps,
                i + 1,
            ).contains(k) by {
                if wk_before.contains(k) {
                    let j = choose|j: int| 0 <= j < i && #[trigger] ps[j].0 == k && ps[j].1.withdrawn;
                    assert(ps[j].0 == k);
                } else {
                    assert(ps[i as int].0 == k);
                }
            }
        }
        assert(strs(s.unique_peers@).to_set() =~= live_keys(ps, current_origin_asn, i + 1)) by {
            assert forall|k: Seq<char>| live_keys(ps, current_origin_asn, i + 1).contains(k) implies strs(
                s.unique_peers@,
            ).to_set().contains(k) by {
                let j = choose|j: int|
                    0 <= j < i + 1 && #[trigger] ps[j].0 == k && !ps[j].1.withdrawn
                        && ps[j].1.origin_asn == current_origin_asn;
                if j < i {
                    assert(lk_before.contains(k));
                }
            }
            assert forall|k: Seq<char>| strs(s.unique_peers@).to_set().contains(k) implies live_keys(
                ps,
                current_origin_asn,
                i + 1,
            ).contains(k) by {
                if lk_before.contains(k) {
                    let j = choose|j: int|
                        0 <= j < i && #[trigger] ps[j].0 == k && !ps[j].1.withdrawn
                            && ps[j].1.origin_asn == current_origin_asn;
                    assert(ps[j].0 == k);
                } else {
                    assert(ps[i as int].0 == k);
                }
            }
        }
        assert(strs(s.unique_hosts@).to_set() =~= live_hosts(ps, current_origin_asn, i + 1)) by {
            assert forall|h: Seq<char>| live_hosts(ps, current_origin_asn, i + 1).contains(h) implies strs(
                s.unique_hosts@,
            ).to_set().contains(h) by {
                let j = choose|j: int|
                    0 <= j < i + 1 && #[trigger] ps[j].1.host == h && !ps[j].1.withdrawn
                        && ps[j].1.origin_asn == current_origin_asn;
                if j < i {
                    assert(lh_before.contains(h));
                }
            }
            assert forall|h: Seq<char>| strs(s.unique_hosts@).to_set().contains(h) implies live_hosts(
                ps,
                current_origin_asn,
                i + 1,
            ).contains(h) by {
                if lh_before.contains(h) {
                    let j = choose|j: int|
                        0 <= j < i && #[trigger] ps[j].1.host == h && !ps[j].1.withdrawn
                            && ps[j].1.origin_asn == current_origin_asn;
                    assert(ps[j].1.host == h);
                } else {
                    assert(ps[i as int].1.host == h);
                }
            }
        }
        i = i + 1;
    }
    assert(ps.take(i as int) =~= ps);
    proof {
        lemma_lists_set(s.unique_peers@, live_keys(ps, current_origin_asn, ps.len() as int));
        lemma_lists_set(s.unique_hosts@, live_hosts(ps, current_origin_asn, ps.len() as int));
        lemma_lists_set(s.all_unique_hosts@, any_hosts(ps, ps.len() as int));
        lemma_lists_set(s.withdrawn_peers@, withdrawn_keys(ps, ps.len() as int));
    }
    s
}

/// Collectors of the sessions among `vals` whose route is announced with origin `origin`.
pub open spec fn live_value_hosts(vals: Seq<AttrsView>, origin: u32) -> Set<Seq<char>> {
    Set::new(
        |h: Seq<char>|
            exists|i: int|
                0 <= i < vals.len() && #[trigger] vals[i].host == h && !vals[i].withdrawn
                    && vals[i].origin_asn == origin,
    )
}

/// Activity aggregated for an origin lists as announcing collectors exactly the
/// collectors of the session attributes it carries that announce that origin.
pub proof fn lemma_hosts_from_values(
    s: AggregatedStats,
    st: PrefixStateView,
    now: i64,
    origin: u32,
)
    requires
        s.matches(aggregate(st, now, origin), st.peers),
    ensures
        s.agg().unique_hosts == live_value_hosts(values_view(s.peer_attrs_values@), origin),
{
    let ps = st.peers;
    let vals = values_view(s.peer_attrs_values@);
    assert(vals == entries_attrs(ps));
    assert(vals.len() == ps.len());
    assert forall|i: int| 0 <= i < ps.len() implies #[trigger] vals[i] == ps[i].1 by {
        assert(entries_attrs(ps)[i] == ps[i].1);
    }
    assert(live_hosts(ps, origin, ps.len() as int) =~= live_value_hosts(vals, origin)) by {
        assert forall|h: Seq<char>|
            live_hosts(ps, origin, ps.len() as int).contains(h) implies live_value_hosts(
            vals,
            origin,
        ).contains(h) by {
            let i = choose|i: int|
                0 <= i < ps.len() && #[trigger] ps[i].1.host == h && !ps[i].1.withdrawn
                    && ps[i].1.origin_asn == origin;
            assert(vals[i] == ps[i].1);
        }
        assert forall|h: Seq<char>|
            live_value_hosts(vals, origin).contains(h) implies live_hosts(
            ps,
            origin,
            ps.len() as int,
        ).contains(h) by {
            let i = choose|i: int|
                0 <= i < vals.len() && #[trigger] vals[i].host == h && !vals[i].withdrawn
                    && vals[i].origin_asn == origin;
            assert(vals[i] == ps[i].1);
        }
    }
}

} // verus!
