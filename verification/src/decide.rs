//! The classification rules: which anomaly a prefix's recent activity shows, and how a
//! finding moves the prefix's classification and incident.
use vstd::prelude::*;
use crate::types::{ClassificationType, LeakType, AnomalyDetails, MessageContext};
use crate::prefix_state::{PrefixState, PrefixStateView, opt_view, copy_opt};
use crate::aggregate::{AggView, AggregatedStats, aggregate, aggregate_recent_buckets};

verus! {

/// How significant an AS is: a tier-1 transit network, or a large network.
#[derive(Clone, Copy)]
pub struct AsnRank {
    pub tier1: bool,
    pub large: bool,
}

/// A route leak: its kind, the leaking AS and the AS whose route leaked.
#[derive(Clone, Copy, PartialEq, Eq, Structural)]
pub struct LeakFinding {
    pub leak_type: LeakType,
    pub leaker: u32,
    pub victim: u32,
}

/// A classification with the leak and counts that explain it.
#[derive(Clone, Copy)]
pub struct Finding {
    pub class: ClassificationType,
    pub leak: Option<LeakFinding>,
    pub anomaly: Option<AnomalyDetails>,
}

/// What outside lookups told the classifier about an update.
#[derive(Clone, Copy)]
pub struct Facts {
    /// The prefix is a bogon.
    pub bogon: bool,
    /// The announcing origin and the prefix's historical origin are siblings (consulted
    /// only when they differ and both are known).
    pub sibling: bool,
    /// RPKI status of the announcing origin for the prefix: 1 valid, 2 invalid, 3 unknown,
    /// 0 not available (consulted only when the origins differ and are no siblings).
    pub origin_rpki: i32,
    /// The route leak on the update's AS path, if any.
    pub leak: Option<LeakFinding>,
    /// The update's communities request blackholing.
    pub ddos: bool,
}

/// A tier-1 or large network.
pub open spec fn big(r: AsnRank) -> bool {
    r.tier1 || r.large
}

/// A valley-free violation at position `i`: a big network, then a network that is not
/// tier-1, then a big network again, all three distinct.
pub open spec fn valley_at(path: Seq<u32>, ranks: Seq<AsnRank>, i: int) -> bool {
    &&& big(ranks[i])
    &&& !ranks[i + 1].tier1
    &&& big(ranks[i + 2])
    &&& path[i] != path[i + 2]
    &&& path[i] != path[i + 1]
    &&& path[i + 1] != path[i + 2]
}

/// A hairpin at position `i`: the path goes A, B, A.
pub open spec fn hairpin_at(path: Seq<u32>, i: int) -> bool {
    path[i] == path[i + 2] && path[i] != path[i + 1]
}

/// The route leak on `path` (with `ranks` giving each AS's rank): the first valley-free
/// violation (the middle AS leaks the last one's route), else the first hairpin (the
/// middle AS leaks the first one's route), else none. Paths of fewer than three ASes
/// show none.
pub open spec fn route_leak(path: Seq<u32>, ranks: Seq<AsnRank>) -> Option<LeakFinding> {
    if path.len() < 3 {
        None
    } else if exists|i: int| 0 <= i < path.len() - 2 && valley_at(path, ranks, i) {
        let i = choose|i: int|
            0 <= i < path.len() - 2 && valley_at(path, ranks, i) && forall|j: int|
                0 <= j < i ==> !valley_at(path, ranks, j);
        Some(
            LeakFinding {
                leak_type: LeakType::ValleyFreeViolation,
                leaker: path[i + 1],
                victim: path[i + 2],
            },
        )
    } else if exists|i: int| 0 <= i < path.len() - 2 && hairpin_at(path, i) {
        let i = choose|i: int|
            0 <= i < path.len() - 2 && hairpin_at(path, i) && forall|j: int|
                0 <= j < i ==> !hairpin_at(path, j);
        Some(LeakFinding { leak_type: LeakType::Hairpin, leaker: path[i + 1], victim: path[i] })
    } else {
        None
    }
}

/// The route leak on `path`, whose ASes have ranks `ranks` in the same order.
pub fn detect_route_leak(path: &Vec<u32>, ranks: &Vec<AsnRank>) -> (r: Option<LeakFinding>)
    requires
        ranks@.len() == path@.len(),
    ensures
        r == route_leak(path@, ranks@),
{
    let n = path.len();
    if n < 3 {
        return None;
    }
    let mut i: usize = 0;
    while i < n - 2
        invariant
            n == path@.len(),
            ranks@.len() == n,
            n >= 3,
            i <= n - 2,
            forall|j: int| 0 <= j < i ==> !valley_at(path@, ranks@, j),
        decreases n - 2 - i,
    {
        let (p1, p2, p3) = (path[i], path[i + 1], path[i + 2]);
        let (r1, r2, r3) = (ranks[i], ranks[i + 1], ranks[i + 2]);
        if (r1.tier1 || r1.large) && !r2.tier1 && (r3.tier1 || r3.large) && p1 != p3 && p1 != p2
            && p2 != p3 {
            assert(valley_at(path@, ranks@, i as int));
            let ghost k = choose|k: int|
                0 <= k < path@.len() - 2 && valley_at(path@, ranks@, k) && forall|j: int|
                    0 <= j < k ==> !valley_at(path@, ranks@, j);
            assert(k == i) by {
                if k < i {
                } else if k > i {
                    assert(!valley_at(path@, ranks@, i as int));
                }
            }
            return Some(
                LeakFinding { leak_type: LeakType::ValleyFreeViolation, leaker: p2, victim: p3 },
            );
        }
        i = i + 1;
    }
    let mut i: usize = 0;
    while i < n - 2
        invariant
            n == path@.len(),
            ranks@.len() == n,
            n >= 3,
            i <= n - 2,
            forall|j: int| 0 <= j < n - 2 ==> !valley_at(path@, ranks@, j),
            forall|j: int| 0 <= j < i ==> !hairpin_at(path@, j),
        decreases n - 2 - i,
    {
        let (p1, p2, p3) = (path[i], path[i + 1], path[i + 2]);
        if p1 == p3 && p1 != p2 {
            assert(hairpin_at(path@, i as int));
            let ghost k = choose|k: int|
                0 <= k < path@.len() - 2 && hairpin_at(path@, k) && forall|j: int|
                    0 <= j < k ==> !hairpin_at(path@, j);
            assert(k == i) by {
                if k > i {
                    assert(!hairpin_at(path@, i as int));
                }
            }
            return Some(LeakFinding { leak_type: LeakType::Hairpin, leaker: p2, victim: p1 });
        }
        i = i + 1;
    }
    None
}

/// The announcing origin differs from a known historical origin.
pub open spec fn origin_changed(origin: u32, hist: u32) -> bool {
    hist != 0 && origin != 0 && origin != hist
}

/// The collectors that see the new origin: those whose sessions announce it, and the
/// collector of this update.
pub open spec fn hijack_hosts(a: AggView, host: Seq<char>) -> Set<Seq<char>> {
    a.unique_hosts.insert(host)
}

/// The anomaly shown by a prefix's recent activity `a`, with the update's time `now`,
/// origin, collector and the facts `f`, and the time `fw` since which no session
/// announces the prefix; the boolean asks for an outage re-check in ten seconds. In order:
/// a bogon; an RPKI-valid new origin is no anomaly; a new, non-sibling origin seen by at
/// least five collectors is a hijack; a prefix withdrawn by every one of at least three
/// known sessions for over thirty seconds, with a known origin, is an outage once ten
/// seconds have passed since the last withdrawal (before that: nothing yet, re-check);
/// a leak on the path seen by at least two collectors is a route leak (minor below five);
/// path lengthening and changes seen by two collectors are path hunting; three flaps seen
/// by two collectors are a flap; a blackhole community seen by three collectors is DDoS
/// mitigation.
pub open spec fn anomaly(
    a: AggView,
    elapsed: int,
    now: i64,
    origin: u32,
    host: Seq<char>,
    hist: u32,
    resolved: u32,
    f: Facts,
    fw: Option<i64>,
) -> (Option<Finding>, bool) {
    let t = a.totals;
    let total_known = a.unique_peers.len() + a.withdrawn_peers.len();
    if f.bogon {
        (Some(Finding { class: ClassificationType::Bogon, leak: None, anomaly: None }), false)
    } else if origin_changed(origin, hist) && !f.sibling && f.origin_rpki == 1 {
        (None, false)
    } else if origin_changed(origin, hist) && !f.sibling && hijack_hosts(a, host).len() >= 5 {
        (
            Some(
                Finding {
                    class: ClassificationType::Hijack,
                    leak: Some(
                        LeakFinding { leak_type: LeakType::NoLeak, leaker: origin, victim: hist },
                    ),
                    anomaly: None,
                },
            ),
            false,
        )
    } else if total_known >= 3 && a.unique_peers.len() == 0 && elapsed > 30 && resolved != 0
        && fw is Some {
        if now - fw->0 >= 10 {
            (
                Some(
                    Finding {
                        class: ClassificationType::Outage,
                        leak: None,
                        anomaly: Some(
                            AnomalyDetails {
                                num_collectors: a.unique_hosts.len() as usize,
                                num_peers: a.withdrawn_peers.len() as usize,
                                num_withdrawals: t.total_with,
                                num_announcements: 0,
                                flap_count: 0,
                            },
                        ),
                    },
                ),
                false,
            )
        } else {
            (None, true)
        }
    } else if a.unique_hosts.len() >= 2 && f.leak is Some {
        (
            Some(
                Finding {
                    class: if a.unique_hosts.len() >= 5 {
                        ClassificationType::RouteLeak
                    } else {
                        ClassificationType::MinorRouteLeak
                    },
                    leak: f.leak,
                    anomaly: None,
                },
            ),
            false,
        )
    } else if a.unique_hosts.len() >= 2 && t.path_len_inc >= 2 && t.path_changes >= 3 {
        (Some(Finding { class: ClassificationType::PathHunting, leak: None, anomaly: None }), false)
    } else if a.all_unique_hosts.len() >= 2 && t.total_flaps >= 3 {
        (
            Some(
                Finding {
                    class: ClassificationType::Flap,
                    leak: None,
                    anomaly: Some(
                        AnomalyDetails {
                            num_collectors: a.all_unique_hosts.len() as usize,
                            num_peers: total_known as usize,
                            num_withdrawals: t.total_with,
                            num_announcements: t.total_ann,
                            flap_count: t.total_flaps as usize,
                        },
                    ),
                },
            ),
            false,
        )
    } else if a.unique_hosts.len() >= 3 && f.ddos {
        (
            Some(Finding { class: ClassificationType::DDoSMitigation, leak: None, anomaly: None }),
            false,
        )
    } else {
        (None, false)
    }
}

/// The anomaly shown by the recent activity `s` (see [`anomaly`]). For activity
/// aggregated for the update's origin, the collectors counted toward a hijack are those
/// of the carried session attributes announcing that origin (see
/// [`crate::aggregate::lemma_hosts_from_values`]).
pub fn find_critical_anomaly(
    s: &AggregatedStats,
    elapsed: i64,
    ctx: &MessageContext,
    historical_origin_asn: u32,
    resolved_asn: u32,
    facts: Facts,
    fully_withdrawn_ts: Option<i64>,
) -> (r: (Option<Finding>, bool))
    requires
        s.lists_ok(),
        fully_withdrawn_ts matches Some(fw) ==> i64::MIN <= ctx.now - fw <= i64::MAX,
    ensures
        r == anomaly(
            s.agg(),
            elapsed as int,
            ctx.now,
            ctx.origin_asn,
            ctx.host@,
            historical_origin_asn,
            resolved_asn,
            facts,
            fully_withdrawn_ts,
        ),
{
    let ghost a = s.agg();
    if facts.bogon {
        return (Some(Finding { class: ClassificationType::Bogon, leak: None, anomaly: None }), false);
    }
    let changed = historical_origin_asn != 0 && ctx.origin_asn != 0 && ctx.origin_asn
        != historical_origin_asn;
    if changed && !facts.sibling {
        if facts.origin_rpki == 1 {
            return (None, false);
        }
        let in_hosts = crate::aggregate::contains_str(&s.unique_hosts, &ctx.host);
        let enough = if in_hosts {
            s.unique_hosts.len() >= 5
        } else {
            s.unique_hosts.len() >= 4
        };
        proof {
            vstd::set::axiom_set_insert_len(a.unique_hosts, ctx.host@);
            assert(crate::aggregate::strs(s.unique_hosts@).to_set().contains(ctx.host@) == in_hosts);
        }
        assert(enough == (hijack_hosts(a, ctx.host@).len() >= 5));
        if enough {
            return (
                Some(
                    Finding {
                        class: ClassificationType::Hijack,
                        leak: Some(
                            LeakFinding {
                                leak_type: LeakType::NoLeak,
                                leaker: ctx.origin_asn,
                                victim: historical_origin_asn,
                            },
                        ),
                        anomaly: None,
                    },
                ),
                false,
            );
        }
    }
    let total_known = s.unique_peers.len() + s.withdrawn_peers.len();
    if total_known >= 3 && s.unique_peers.len() == 0 && elapsed > 30 && resolved_asn != 0 {
        if let Some(fw_ts) = fully_withdrawn_ts {
            if ctx.now - fw_ts >= 10 {
                return (
                    Some(
                        Finding {
                            class: ClassificationType::Outage,
                            leak: None,
                            anomaly: Some(
                                AnomalyDetails {
                                    num_collectors: s.unique_hosts.len(),
                                    num_peers: s.withdrawn_peers.len(),
                                    num_withdrawals: s.total_with,
                                    num_announcements: 0,
                                    flap_count: 0,
                                },
                            ),
                        },
                    ),
                    false,
                );
            } else {
                return (None, true);
            }
        }
    }
    if s.unique_hosts.len() >= 2 {
        if let Some(ld) = facts.leak {
            let class = if s.unique_hosts.len() >= 5 {
                ClassificationType::RouteLeak
            } else {
                ClassificationType::MinorRouteLeak
            };
            return (Some(Finding { class, leak: Some(ld), anomaly: None }), false);
        }
    }
    if s.unique_hosts.len() >= 2 && s.path_len_inc >= 2 && s.path_changes >= 3 {
        return (
            Some(Finding { class: ClassificationType::PathHunting, leak: None, anomaly: None }),
            false,
        );
    }
    if s.all_unique_hosts.len() >= 2 && s.total_flaps >= 3 {
        return (
            Some(
                Finding {
                    class: ClassificationType::Flap,
                    leak: None,
                    anomaly: Some(
                        AnomalyDetails {
                            num_collectors: s.all_unique_hosts.len(),
                            num_peers: total_known,
                            num_withdrawals: s.total_with,
                            num_announcements: s.total_ann,
                            flap_count: s.total_flaps as usize,
                        },
                    ),
                },
            ),
            false,
        );
    }
    if s.unique_hosts.len() >= 3 && facts.ddos {
        return (
            Some(Finding { class: ClassificationType::DDoSMitigation, leak: None, anomaly: None }),
            false,
        );
    }
    (None, false)
}

/// A finding as it becomes an event: the previous classification and the incident.
pub struct EventCore {
    pub finding: Finding,
    pub old_classification: ClassificationType,
    pub incident_id: Option<String>,
    pub incident_start_time: i64,
}

/// An [`EventCore`] with the incident as characters.
pub struct EventCoreView {
    pub finding: Finding,
    pub old_classification: ClassificationType,
    pub incident_id: Option<Seq<char>>,
    pub incident_start_time: i64,
}

impl View for EventCore {
    type V = EventCoreView;

    open spec fn view(&self) -> EventCoreView {
        EventCoreView {
            finding: self.finding,
            old_classification: self.old_classification,
            incident_id: opt_view(self.incident_id),
            incident_start_time: self.incident_start_time,
        }
    }
}

/// Classifications that open an incident: hijacks, route leaks, outages and flaps.
pub open spec fn is_bad(c: ClassificationType) -> bool {
    c == ClassificationType::Hijack || c == ClassificationType::RouteLeak || c
        == ClassificationType::MinorRouteLeak || c == ClassificationType::Outage || c
        == ClassificationType::Flap
}

/// Classifications of routine churn: DDoS mitigation, discovery and path hunting.
pub open spec fn is_broad(c: ClassificationType) -> bool {
    c == ClassificationType::DDoSMitigation || c == ClassificationType::Discovery || c
        == ClassificationType::PathHunting
}

/// Whether `c` opens an incident.
pub fn classification_is_bad(c: ClassificationType) -> (r: bool)
    ensures
        r == is_bad(c),
{
    matches!(
        c,
        ClassificationType::Hijack | ClassificationType::RouteLeak
            | ClassificationType::MinorRouteLeak | ClassificationType::Outage
            | ClassificationType::Flap
    )
}

/// Whether `c` is routine churn.
pub fn classification_is_broad(c: ClassificationType) -> (r: bool)
    ensures
        r == is_broad(c),
{
    matches!(
        c,
        ClassificationType::DDoSMitigation | ClassificationType::Discovery
            | ClassificationType::PathHunting
    )
}

/// The seconds the activity window spans at `now`, at least one.
pub open spec fn elapsed_of(a: AggView, now: i64) -> int {
    if now - a.totals.earliest_ts < 1 {
        1
    } else {
        now - a.totals.earliest_ts
    }
}

/// Since when no session announces the prefix: unchanged while none does, `now` when the
/// last one just went, nothing while one does.
pub open spec fn withdrawn_since(a: AggView, st: PrefixStateView, now: i64) -> Option<i64> {
    if a.unique_peers.len() == 0 {
        if st.fully_withdrawn_ts is None {
            Some(now)
        } else {
            st.fully_withdrawn_ts
        }
    } else {
        None
    }
}

/// The prefix's state and event after its activity is judged at `now`: a finding of
/// routine churn within five minutes of an incident-opening classification is held back;
/// otherwise the finding becomes the classification (at `now`, with its leak recorded),
/// and the event carries the previous classification and the incident: a fresh one
/// (`fresh`) when an incident opens or changes kind, the closing one when it ends, the
/// running one otherwise.
pub open spec fn evaluate(
    st: PrefixStateView,
    now: i64,
    origin: u32,
    host: Seq<char>,
    hist: u32,
    resolved: u32,
    f: Facts,
    old: ClassificationType,
    fresh: Seq<char>,
) -> (PrefixStateView, Option<EventCoreView>, bool) {
    let a = aggregate(st, now, origin);
    let fw = withdrawn_since(a, st, now);
    let st1 = PrefixStateView { fully_withdrawn_ts: fw, ..st };
    let (found, timer) = anomaly(a, elapsed_of(a, now), now, origin, host, hist, resolved, f, fw);
    match found {
        None => (st1, None, timer),
        Some(fd) => {
            if is_broad(fd.class) && is_bad(old) && now - st1.classified_time_ts < 300 {
                (st1, None, timer)
            } else {
                let new_bad = is_bad(fd.class);
                let old_bad = is_bad(old);
                let opens = (new_bad && !old_bad) || (new_bad && old_bad && old != fd.class);
                let closes = !new_bad && old_bad;
                let incident = if opens {
                    Some(fresh)
                } else if closes {
                    None
                } else {
                    st1.active_incident_id
                };
                let ev_id = if opens {
                    Some(fresh)
                } else {
                    st1.active_incident_id
                };
                let ev_start = if opens {
                    now
                } else if closes {
                    st1.classified_time_ts
                } else if st1.classified_time_ts == 0 {
                    now
                } else {
                    st1.classified_time_ts
                };
                let st2 = PrefixStateView {
                    active_incident_id: incident,
                    classified_type: fd.class,
                    classified_time_ts: now,
                    leak_type: match fd.leak {
                        Some(l) => l.leak_type,
                        None => st1.leak_type,
                    },
                    leaker_asn: match fd.leak {
                        Some(l) => l.leaker,
                        None => st1.leaker_asn,
                    },
                    victim_asn: match fd.leak {
                        Some(l) => l.victim,
                        None => st1.victim_asn,
                    },
                    ..st1
                };
                (
                    st2,
                    Some(
                        EventCoreView {
                            finding: fd,
                            old_classification: old,
                            incident_id: ev_id,
                            incident_start_time: ev_start,
                        },
                    ),
                    timer,
                )
            }
        },
    }
}

/// The earliest recent minute lies within ten minutes before `now`, or is `now`.
proof fn lemma_totals_earliest(bs: Seq<(i64, crate::types::StatsBucket)>, now: i64)
    ensures
        now - 600 <= crate::aggregate::totals(bs, now).earliest_ts <= now,
    decreases bs.len(),
{
    if bs.len() > 0 {
        lemma_totals_earliest(bs.drop_last(), now);
    }
}

/// The times a judgement at `now` subtracts from each other fit an `i64`.
pub open spec fn judge_defined(st: PrefixStateView, now: i64) -> bool {
    &&& now >= i64::MIN + 3600
    &&& i64::MIN <= now - st.classified_time_ts <= i64::MAX
    &&& (st.fully_withdrawn_ts matches Some(fw) ==> i64::MIN <= now - fw <= i64::MAX)
}

/// Judges the activity of `state` at the update `ctx` (see [`evaluate`]); `fresh` names
/// the incident that a newly opened incident gets.
pub fn evaluate_prefix_state(
    state: &mut PrefixState,
    historical_origin_asn: u32,
    resolved_asn: u32,
    ctx: &MessageContext,
    facts: Facts,
    old_classified_type: ClassificationType,
    fresh: &String,
) -> (r: (Option<EventCore>, bool))
    requires
        old(state)@.wf(),
        judge_defined(old(state)@, ctx.now),
    ensures
        ({
            let (st, ev, timer) = evaluate(
                old(state)@,
                ctx.now,
                ctx.origin_asn,
                ctx.host@,
                historical_origin_asn,
                resolved_asn,
                facts,
                old_classified_type,
                fresh@,
            );
            &&& final(state)@ == st
            &&& r.1 == timer
            &&& match r.0 {
                Some(e) => ev == Some(e@),
                None => ev is None,
            }
        }),
        final(state)@.wf(),
{
    let now = ctx.now;
    let stats = aggregate_recent_buckets(state, now, ctx.origin_asn);
    let ghost a = aggregate(state@, now, ctx.origin_asn);
    proof {
        lemma_totals_earliest(state@.buckets, now);
    }
    let elapsed: i64 = if now - stats.earliest_ts < 1 {
        1
    } else {
        now - stats.earliest_ts
    };
    if stats.unique_peers.len() == 0 {
        if state.fully_withdrawn_ts.is_none() {
            state.fully_withdrawn_ts = Some(now);
        }
    } else {
        state.fully_withdrawn_ts = None;
    }
    let fw_ts = state.fully_withdrawn_ts;
    let (event_opt, needs_timer) = find_critical_anomaly(
        &stats,
        elapsed,
        ctx,
        historical_origin_asn,
        resolved_asn,
        facts,
        fw_ts,
    );
    match event_opt {
        None => (None, needs_timer),
        Some(fd) => {
            let is_new_broad = classification_is_broad(fd.class);
            let is_old_specific = classification_is_bad(old_classified_type);
            if is_new_broad && is_old_specific && now - state.classified_time_ts < 300 {
                return (None, needs_timer);
            }
            let is_new_bad = classification_is_bad(fd.class);
            let is_old_bad = is_old_specific;
            let incident_id;
            let incident_start_time;
            if is_new_bad && !is_old_bad {
                state.active_incident_id = Some(fresh.clone());
                incident_id = Some(fresh.clone());
                incident_start_time = now;
            } else if !is_new_bad && is_old_bad {
                incident_id = copy_opt(&state.active_incident_id);
                incident_start_time = state.classified_time_ts;
                state.active_incident_id = None;
            } else if is_new_bad && is_old_bad && old_classified_type != fd.class {
                state.active_incident_id = Some(fresh.clone());
                incident_id = Some(fresh.clone());
                incident_start_time = now;
            } else {
                incident_id = copy_opt(&state.active_incident_id);
                incident_start_time = if state.classified_time_ts == 0 {
                    now
                } else {
                    state.classified_time_ts
                };
            }
            state.classified_type = fd.class;
            state.classified_time_ts = now;
            if let Some(ld) = fd.leak {
                state.leak_type = ld.leak_type;
                state.leaker_asn = ld.leaker;
                state.victim_asn = ld.victim;
            }
            (
                Some(
                    EventCore {
                        finding: fd,
                        old_classification: old_classified_type,
                        incident_id,
                        incident_start_time,
                    },
                ),
                needs_timer,
            )
        },
    }
}

} // verus!
