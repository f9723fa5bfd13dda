//! How far a group of events reaches (its distinct prefixes and origins, the IPv4
//! addresses and IPv6 prefixes they cover), the size a group must reach to be reported,
//! and which prefixes overlap the measurement beacons.
use vstd::prelude::*;
use vstd::arithmetic::power2::pow2;
use crate::prefix::{IpPrefix, ipnet_parse, network_v4, network_v6, parse_prefix, mask_v4, mask_v6};
use crate::rolling::{WindowEntry, EntryView, WindowKey, KeyView, entries_view};

verus! {

/// `p`'s address block holds the network address of `q` (as `ipnet`'s `contains` of a
/// network address: same family, and equal under `p`'s mask).
pub open spec fn holds_network_of(p: IpPrefix, q: IpPrefix) -> bool {
    match (p, q) {
        (IpPrefix::V4 { addr: a, len: la }, IpPrefix::V4 { addr: b, len: lb }) => network_v4(
            network_v4(b, lb),
            la,
        ) == network_v4(a, la),
        (IpPrefix::V6 { addr: a, len: la }, IpPrefix::V6 { addr: b, len: lb }) => network_v6(
            network_v6(b, lb),
            la,
        ) == network_v6(a, la),
        _ => false,
    }
}

/// Two prefixes overlap: one holds the other's network address.
pub open spec fn overlaps(p: IpPrefix, q: IpPrefix) -> bool {
    holds_network_of(p, q) || holds_network_of(q, p)
}

/// Whether `p` holds the network address of `q` (see [`holds_network_of`]).
pub fn holds_network(p: IpPrefix, q: IpPrefix) -> (r: bool)
    requires
        p.wf(),
        q.wf(),
    ensures
        r == holds_network_of(p, q),
{
    match (p, q) {
        (IpPrefix::V4 { addr: a, len: la }, IpPrefix::V4 { addr: b, len: lb }) => mask_v4(
            mask_v4(b, lb),
            la,
        ) == mask_v4(a, la),
        (IpPrefix::V6 { addr: a, len: la }, IpPrefix::V6 { addr: b, len: lb }) => mask_v6(
            mask_v6(b, lb),
            la,
        ) == mask_v6(a, la),
        _ => false,
    }
}

/// The prefix written in `prefix` overlaps one of the beacon prefixes.
pub open spec fn beacon_prefix(prefix: Seq<char>, beacons: Seq<IpPrefix>) -> bool {
    match ipnet_parse(prefix) {
        Some(p) => exists|i: int| 0 <= i < beacons.len() && overlaps(#[trigger] beacons[i], p),
        None => false,
    }
}

/// Whether `prefix` overlaps one of the beacon prefixes (see [`beacon_prefix`]).
pub fn is_beacon(prefix: &str, beacons: &Vec<IpPrefix>) -> (r: bool)
    requires
        forall|i: int| 0 <= i < beacons@.len() ==> #[trigger] beacons@[i].wf(),
    ensures
        r == beacon_prefix(prefix@, beacons@),
{
    let p = match parse_prefix(prefix) {
        Some(p) => p,
        None => {
            return false;
        },
    };
    let mut i: usize = 0;
    while i < beacons.len()
        invariant
            i <= beacons@.len(),
            p.wf(),
            ipnet_parse(prefix@) == Some(p),
            forall|k: int| 0 <= k < beacons@.len() ==> #[trigger] beacons@[k].wf(),
            forall|k: int| 0 <= k < i ==> !overlaps(#[trigger] beacons@[k], p),
        decreases beacons@.len() - i,
    {
        let b = beacons[i];
        if holds_network(b, p) || holds_network(p, b) {
            assert(overlaps(beacons@[i as int], p));
            return true;
        }
        i = i + 1;
    }
    false
}

/// The prefixes of the entries, each once, in the order first seen.
pub open spec fn distinct_prefixes(es: Seq<EntryView>) -> Seq<Seq<char>>
    decreases es.len(),
{
    if es.len() == 0 {
        seq![]
    } else {
        let d = distinct_prefixes(es.drop_last());
        if d.contains(es.last().prefix) {
            d
        } else {
            d.push(es.last().prefix)
        }
    }
}

/// The origins of the entries, each once, in the order first seen.
pub open spec fn distinct_origins(es: Seq<EntryView>) -> Seq<u32>
    decreases es.len(),
{
    if es.len() == 0 {
        seq![]
    } else {
        let d = distinct_origins(es.drop_last());
        if d.contains(es.last().asn) {
            d
        } else {
            d.push(es.last().asn)
        }
    }
}

/// The number of IPv4 addresses a prefix text covers: 2^(32 - length) for an IPv4
/// prefix, none otherwise.
pub open spec fn v4_size(p: Seq<char>) -> nat {
    match ipnet_parse(p) {
        Some(IpPrefix::V4 { len, .. }) if len <= 32 => pow2((32 - len) as nat),
        _ => 0,
    }
}

/// The IPv4 addresses the prefixes cover, added up.
pub open spec fn v4_total(ps: Seq<Seq<char>>) -> nat
    decreases ps.len(),
{
    if ps.len() == 0 {
        0
    } else {
        v4_total(ps.drop_last()) + v4_size(ps.last())
    }
}

/// The number of IPv6 prefixes among the prefix texts.
pub open spec fn v6_total(ps: Seq<Seq<char>>) -> nat
    decreases ps.len(),
{
    if ps.len() == 0 {
        0
    } else {
        v6_total(ps.drop_last()) + if ipnet_parse(ps.last()) matches Some(IpPrefix::V6 { .. }) {
            1nat
        } else {
            0nat
        }
    }
}

/// `x` capped at `cap`.
pub open spec fn capped(x: nat, cap: nat) -> nat {
    if x <= cap {
        x
    } else {
        cap
    }
}

/// How far a group of events reaches.
pub struct GroupReach {
    /// The distinct prefixes, in the order first seen.
    pub prefixes: Vec<String>,
    /// The distinct origins, in the order first seen.
    pub asns: Vec<u32>,
    /// The IPv4 addresses the distinct prefixes cover (at most `u64::MAX`).
    pub ipv4_addresses: u64,
    /// The IPv6 prefixes among the distinct prefixes (at most `u32::MAX`).
    pub ipv6_prefixes: u32,
}

/// Whether the text `s` is among `v`.
fn has_text(v: &Vec<String>, s: &String) -> (r: bool)
    ensures
        r == crate::ingest::texts_view(v@).contains(s@),
{
    let mut i: usize = 0;
    while i < v.len()
        invariant
            i <= v@.len(),
            forall|k: int| 0 <= k < i ==> v@[k]@ != s@,
        decreases v@.len() - i,
    {
        if v[i].eq(s) {
            assert(crate::ingest::texts_view(v@)[i as int] == s@);
            return true;
        }
        i = i + 1;
    }
    assert forall|k: int| 0 <= k < v@.len() implies crate::ingest::texts_view(v@)[k] != s@ by {}
    false
}

/// Whether `x` is among `v`.
fn has_number(v: &Vec<u32>, x: u32) -> (r: bool)
    ensures
        r == v@.contains(x),
{
    let mut i: usize = 0;
    while i < v.len()
        invariant
            i <= v@.len(),
            forall|k: int| 0 <= k < i ==> v@[k] != x,
        decreases v@.len() - i,
    {
        if v[i] == x {
            assert(v@[i as int] == x);
            return true;
        }
        i = i + 1;
    }
    false
}

/// The IPv4 addresses a prefix text covers (see [`v4_size`]), and whether it is an IPv6
/// prefix.
fn prefix_size(p: &String) -> (r: (u64, bool))
    ensures
        r.0 == v4_size(p@),
        r.1 == (ipnet_parse(p@) matches Some(IpPrefix::V6 { .. })),
{
    match parse_prefix(p.as_str()) {
        Some(IpPrefix::V4 { len, .. }) => {
            let shift: u64 = (32 - len) as u64;
            proof {
                vstd::arithmetic::power2::lemma2_to64();
                vstd::arithmetic::power2::lemma_pow2_strictly_increases(shift as nat, 64);
                assert(1 * pow2(shift as nat) <= u64::MAX) by {
                    if shift < 32 {
                        vstd::arithmetic::power2::lemma_pow2_strictly_increases(shift as nat, 32);
                    }
                }
                vstd::bits::lemma_u64_shl_is_mul(1, shift);
            }
            (1u64 << shift, false)
        },
        Some(IpPrefix::V6 { .. }) => (0, true),
        None => (0, false),
    }
}

/// How far the entries reach (see [`GroupReach`]).
pub fn group_reach(entries: &Vec<WindowEntry>) -> (r: GroupReach)
    ensures
        crate::ingest::texts_view(r.prefixes@) == distinct_prefixes(entries_view(entries@)),
        r.asns@ == distinct_origins(entries_view(entries@)),
        r.ipv4_addresses == capped(
            v4_total(distinct_prefixes(entries_view(entries@))),
            u64::MAX as nat,
        ),
        r.ipv6_prefixes == capped(
            v6_total(distinct_prefixes(entries_view(entries@))),
            u32::MAX as nat,
        ),
{
    let ghost ev = entries_view(entries@);
    let mut prefixes: Vec<String> = Vec::new();
    let mut asns: Vec<u32> = Vec::new();
    let mut v4: u64 = 0;
    let mut v6: u32 = 0;
    let mut i: usize = 0;
    while i < entries.len()
        invariant
            i <= entries@.len(),
            ev == entries_view(entries@),
            crate::ingest::texts_view(prefixes@) == distinct_prefixes(ev.take(i as int)),
            asns@ == distinct_origins(ev.take(i as int)),
            v4 == capped(v4_total(distinct_prefixes(ev.take(i as int))), u64::MAX as nat),
            v6 == capped(v6_total(distinct_prefixes(ev.take(i as int))), u32::MAX as nat),
        decreases entries@.len() - i,
    {
        proof {
            assert(ev.take(i + 1).drop_last() =~= ev.take(i as int));
            assert(ev.take(i + 1).last() == entries@[i as int]@);
        }
        let e = &entries[i];
        let ghost d = distinct_prefixes(ev.take(i as int));
        if !has_text(&prefixes, &e.prefix) {
            let (size, is_v6) = prefix_size(&e.prefix);
            let ghost before = prefixes@;
            prefixes.push(e.prefix.clone());
            assert(crate::ingest::texts_view(prefixes@) =~= crate::ingest::texts_view(before).push(
                e.prefix@,
            ));
            proof {
                assert(d.push(e.prefix@).drop_last() =~= d);
                assert(v4_total(d.push(e.prefix@)) == v4_total(d) + v4_size(e.prefix@));
                assert(v6_total(d.push(e.prefix@)) == v6_total(d) + if is_v6 {
                    1nat
                } else {
                    0nat
                });
            }
            v4 = v4.saturating_add(size);
            if is_v6 {
                v6 = v6.saturating_add(1);
            }
        }
        if !has_number(&asns, e.asn) {
            asns.push(e.asn);
        }
        i = i + 1;
    }
    assert(ev.take(i as int) =~= ev);
    GroupReach { prefixes, asns, ipv4_addresses: v4, ipv6_prefixes: v6 }
}

/// The reach a group must have to be reported: 5000 IPv4 addresses by location, 50000
/// by country, 20000 by organisation and 5000 by origin, or 500 IPv6 prefixes.
pub open spec fn reach_enough(key: KeyView, ipv4: u64, ipv6: u32) -> bool {
    let v4_needed: u64 = match key {
        KeyView::Location { .. } => 5000,
        KeyView::Asn { .. } => 5000,
        KeyView::Country { .. } => 50000,
        KeyView::Organization { .. } => 20000,
    };
    ipv4 >= v4_needed || ipv6 >= 500
}

/// Whether a group under `key` reaches far enough to be reported (see
/// [`reach_enough`]).
pub fn reaches_far(key: &WindowKey, reach: &GroupReach) -> (r: bool)
    ensures
        r == reach_enough(key@, reach.ipv4_addresses, reach.ipv6_prefixes),
{
    let needed: u64 = match key {
        WindowKey::Location { .. } => 5000,
        WindowKey::Asn { .. } => 5000,
        WindowKey::Country { .. } => 50000,
        WindowKey::Organization { .. } => 20000,
    };
    reach.ipv4_addresses >= needed || reach.ipv6_prefixes >= 500
}

} // verus!
