//! The classifier: per-prefix state in sixteen least-recently-used caches, the lookups
//! that inform each judgement, and the entry points for updates and outage timers.
use vstd::prelude::*;
use std::collections::HashMap;
use std::collections::HashSet;
use std::collections::hash_map::DefaultHasher;
use std::collections::hash_map::RandomState;
use std::hash::Hasher;
use std::num::NonZeroUsize;
use vstd::std_specs::hash::DefaultHasherAdditionalSpecFns;
use vstd::utf8::encode_utf8;
use lru::LruCache;
use bgpkit_commons::BgpkitCommons;
use crate::decide::AsnRank;
use crate::disk_trie::{DiskTrie, origin_from_hit};
use crate::lookup::{
    rank_of, tier1_listed, large_listed, rank_from_info, name_of_info, org_of_info,
    name_from_info, org_from_info, siblings_from, rpki_code_of, rpki_verdict, bogon_verdict,
    sibling_verdict, asinfo_of, lowercase_opt, org_label_from_info,
};
use crate::prefix::{IpPrefix, ipnet_parse, local_bogon, parse_prefix, is_local_bogon};
use crate::prefix_state::{PrefixState, PrefixStateView, opt_view, copy_opt, fresh_state};
use crate::types::{ClassificationType, LeakDetail, AnomalyDetails, MessageContext, PendingEvent, classification_code};
use crate::decide::{Facts, origin_changed, route_leak, detect_route_leak};
use crate::aggregate::{aggregate, aggregate_recent_buckets};
use crate::text::{parse_path, path_asns, is_ddos_mitigation, has_blackhole_community};
use crate::step::{
    CtxView, EventView, LeakView, GeoView, DbWrite, WriteView, StepOutcome, step, step_defined,
    writes_view, classify_step,
};

verus! {

/// `lru`'s least-recently-used cache.
#[verifier::external_type_specification]
#[verifier::external_body]
#[verifier::reject_recursive_types(K)]
#[verifier::reject_recursive_types(V)]
#[verifier::reject_recursive_types(S)]
pub struct ExLruCache<K, V, S>(LruCache<K, V, S>);

/// The prefix states a cache holds, by prefix text.
pub uninterp spec fn cached_states(c: LruCache<String, PrefixState, RandomState>) -> Map<
    Seq<char>,
    PrefixStateView,
>;

/// The number of states a cache was made to hold at most.
pub uninterp spec fn cache_capacity(c: LruCache<String, PrefixState, RandomState>) -> nat;

/// Makes an empty cache with `LruCache::with_hasher`, holding at most `cap` states.
/// Claimed: it holds nothing and its capacity is `cap`.
#[verifier::external_body]
fn cache_new(cap: usize) -> (r: LruCache<String, PrefixState, RandomState>)
    requires
        cap > 0,
    ensures
        cached_states(r) == no_states(),
        cache_capacity(r) == cap,
{
    LruCache::with_hasher(NonZeroUsize::new(cap).unwrap(), RandomState::new())
}

/// `LruCache::get`: a copy of the state cached under `key`, which becomes the most
/// recently used. Claimed: what the cache holds and its capacity stay as they were, and
/// the copy is the state held under `key`, if any.
#[verifier::external_body]
fn cache_get(c: &mut LruCache<String, PrefixState, RandomState>, key: &String) -> (r: Option<
    PrefixState,
>)
    ensures
        cached_states(*final(c)) == cached_states(*old(c)),
        cache_capacity(*final(c)) == cache_capacity(*old(c)),
        match r {
            Some(s) => cached_states(*old(c)).contains_key(key@) && s@ == cached_states(
                *old(c),
            )[key@],
            None => !cached_states(*old(c)).contains_key(key@),
        },
{
    c.get(key).map(|s| s.copy())
}

/// `LruCache::contains`: whether a state is cached under `key` (the order of use is
/// left alone).
#[verifier::external_body]
fn cache_contains(c: &LruCache<String, PrefixState, RandomState>, key: &String) -> (r: bool)
    ensures
        r == cached_states(*c).contains_key(key@),
{
    c.contains(key)
}

/// `LruCache::put`: caches `v` under `key` as the most recently used entry, dropping the
/// state it replaces. Claimed: the capacity stays; when `key` was cached or the cache
/// had room, the contents are the old ones with `key` mapped to `v`; otherwise one
/// cached entry (the least recently used) is evicted to make room; the cache never
/// holds more than its capacity.
#[verifier::external_body]
fn cache_put(c: &mut LruCache<String, PrefixState, RandomState>, key: String, v: PrefixState)
    requires
        cached_states(*old(c)).dom().finite(),
        cached_states(*old(c)).len() <= cache_capacity(*old(c)),
    ensures
        cache_capacity(*final(c)) == cache_capacity(*old(c)),
        cached_states(*final(c)).dom().finite(),
        cached_states(*final(c)).len() <= cache_capacity(*final(c)),
        cached_states(*old(c)).contains_key(key@) || cached_states(*old(c)).len()
            < cache_capacity(*old(c)) ==> cached_states(*final(c)) == cached_states(
            *old(c),
        ).insert(key@, v@),
        !(cached_states(*old(c)).contains_key(key@) || cached_states(*old(c)).len()
            < cache_capacity(*old(c))) ==> exists|x: Seq<char>|
            #![trigger cached_states(*old(c)).remove(x)]
            cached_states(*old(c)).contains_key(x) && cached_states(*final(c)) == cached_states(
                *old(c),
            ).remove(x).insert(key@, v@),
{
    c.put(key, v);
}

/// `m1` is the cache `m0` after storing `st` under `prefix`: every other entry is kept,
/// except that one entry may have been evicted to make room.
pub open spec fn cache_stored(
    m0: Map<Seq<char>, PrefixStateView>,
    m1: Map<Seq<char>, PrefixStateView>,
    prefix: Seq<char>,
    st: PrefixStateView,
) -> bool {
    ||| m1 == m0.insert(prefix, st)
    ||| exists|x: Seq<char>|
        #![trigger m0.remove(x)]
        m0.contains_key(x) && m1 == m0.remove(x).insert(prefix, st)
}

/// No states at all.
pub open spec fn no_states() -> Map<Seq<char>, PrefixStateView> {
    Map::empty()
}

/// No names at all.
pub open spec fn no_names() -> Map<u32, Option<String>> {
    Map::empty()
}

/// A cache in working order: finitely many well-formed states, no more than its
/// capacity, which is positive.
pub open spec fn cache_ok(c: LruCache<String, PrefixState, RandomState>) -> bool {
    &&& cached_states(c).dom().finite()
    &&& cached_states(c).len() <= cache_capacity(c)
    &&& cache_capacity(c) > 0
    &&& forall|k: Seq<char>| #[trigger]
        cached_states(c).contains_key(k) ==> cached_states(c)[k].wf()
}

/// The number of caches the states are spread over.
pub const NUM_SHARDS: usize = 16;

/// The cache a prefix's state lives in: the `DefaultHasher` digest of the prefix's UTF-8
/// bytes followed by the byte `0xff` (as `str` feeds a hasher), modulo the number of
/// caches.
pub open spec fn shard_of(prefix: Seq<char>) -> int {
    (<DefaultHasher as DefaultHasherAdditionalSpecFns>::spec_finish(
        seq![encode_utf8(prefix), seq![0xffu8]],
    ) % 16) as int
}

/// The cache the state of `prefix` lives in (see [`shard_of`]).
pub fn shard_index(prefix: &str) -> (r: usize)
    ensures
        r < NUM_SHARDS,
        r == shard_of(prefix@),
{
    let mut h = DefaultHasher::new();
    let bytes = prefix.as_bytes();
    assert(bytes@ == encode_utf8(prefix@));
    h.write(bytes);
    let mut end: Vec<u8> = Vec::new();
    end.push(0xffu8);
    let tail = end.as_slice();
    assert(tail@ =~= seq![0xffu8]);
    h.write(tail);
    assert(h@ =~= seq![encode_utf8(prefix@), seq![0xffu8]]);
    (h.finish() % 16) as usize
}

/// The capacity of each cache for a classifier meant to hold `capacity` states: an even
/// share, at least one.
pub open spec fn shard_capacity(capacity: usize) -> nat {
    if capacity / 16 < 1 {
        1
    } else {
        (capacity / 16) as nat
    }
}

/// AS names and organisation names already looked up, by AS number.
pub struct BgpkitCache {
    pub as2org: HashMap<u32, Option<String>>,
    pub as2name: HashMap<u32, Option<String>>,
}

impl Default for BgpkitCache {
    fn default() -> (r: Self)
        ensures
            r.as2org@ == no_names(),
            r.as2name@ == no_names(),
    {
        BgpkitCache { as2org: HashMap::new(), as2name: HashMap::new() }
    }
}

/// Classifies BGP updates prefix by prefix.
pub struct Classifier {
    /// Prefix states, spread over [`NUM_SHARDS`] caches by [`shard_index`].
    pub shards: Vec<LruCache<String, PrefixState, RandomState>>,
    /// Origins seen before, by prefix, for longest-prefix-match lookups.
    pub seen_db: Option<DiskTrie>,
    /// The `bgpkit_commons` data sets, once loaded.
    pub bgpkit: Option<BgpkitCommons>,
    /// Names already looked up.
    pub bgpkit_cache: BgpkitCache,
    /// The customers seen behind each tier-1 or large network.
    pub provider_db: HashMap<u32, HashSet<u32>>,
}

impl Classifier {
    /// All caches are in working order.
    pub open spec fn wf(&self) -> bool {
        &&& self.shards@.len() == NUM_SHARDS
        &&& forall|i: int| 0 <= i < NUM_SHARDS ==> #[trigger] cache_ok(self.shards@[i])
        &&& self.placed()
    }

    /// Each cached prefix sits in the cache its text hashes to.
    pub open spec fn placed(&self) -> bool {
        forall|j: int, k: Seq<char>|
            0 <= j < NUM_SHARDS && #[trigger] cached_states(self.shards@[j]).contains_key(k)
                ==> shard_of(k) == j
    }

    /// A classifier meant to hold about `capacity` prefix states, over the origins in
    /// `seen_db`: sixteen empty caches of [`shard_capacity`] states each, no data sets
    /// loaded, nothing looked up yet.
    pub fn new(capacity: usize, seen_db: Option<DiskTrie>) -> (r: Self)
        ensures
            r.wf(),
            forall|i: int|
                0 <= i < NUM_SHARDS ==> cached_states(#[trigger] r.shards@[i]) == no_states() && cache_capacity(r.shards@[i]) == shard_capacity(capacity),
            r.seen_db == seen_db,
            r.bgpkit is None,
            r.bgpkit_cache.as2org@ == no_names(),
            r.bgpkit_cache.as2name@ == no_names(),
            r.provider_db@.dom().is_empty(),
    {
        let per = if capacity / 16 < 1 {
            1
        } else {
            capacity / 16
        };
        let mut shards: Vec<LruCache<String, PrefixState, RandomState>> = Vec::new();
        let mut i: usize = 0;
        while i < NUM_SHARDS
            invariant
                i <= NUM_SHARDS,
                shards@.len() == i,
                per == shard_capacity(capacity),
                forall|j: int|
                    0 <= j < i ==> cached_states(#[trigger] shards@[j]) == no_states() && cache_capacity(shards@[j]) == per,
            decreases NUM_SHARDS - i,
        {
            shards.push(cache_new(per));
            i = i + 1;
        }
        let r = Classifier {
            shards,
            seen_db,
            bgpkit: None,
            bgpkit_cache: BgpkitCache::default(),
            provider_db: HashMap::new(),
        };
        assert forall|j: int| 0 <= j < NUM_SHARDS implies #[trigger] cache_ok(r.shards@[j]) by {
            assert(cached_states(r.shards@[j]).dom() =~= Set::<Seq<char>>::empty());
        }
        r
    }

    /// Whether a state of `prefix` is cached (without making it the most recent).
    pub fn has_state(&self, prefix: &String) -> (r: bool)
        requires
            self.wf(),
        ensures
            r == cached_states(self.shards@[shard_of(prefix@)]).contains_key(
                prefix@,
            ),
    {
        let i = shard_index(prefix.as_str());
        cache_contains(&self.shards[i], prefix)
    }
}


/// The two classifiers differ at most in the names already looked up.
pub open spec fn same_but_names(a: &Classifier, b: &Classifier) -> bool {
    &&& a.shards == b.shards
    &&& a.seen_db == b.seen_db
    &&& a.bgpkit == b.bgpkit
    &&& a.provider_db == b.provider_db
}

/// The two classifiers differ at most in the recorded customers.
pub open spec fn same_but_providers(a: &Classifier, b: &Classifier) -> bool {
    &&& a.shards == b.shards
    &&& a.seen_db == b.seen_db
    &&& a.bgpkit == b.bgpkit
    &&& a.bgpkit_cache == b.bgpkit_cache
}

/// A lookup cache after a lookup of `asn` that found `v`: found values are kept, nothing
/// found is not.
pub open spec fn cache_after(
    before: Map<u32, Option<String>>,
    after: Map<u32, Option<String>>,
    asn: u32,
    v: Option<String>,
) -> bool {
    if v is Some {
        after == before.insert(asn, v)
    } else {
        after == before
    }
}

/// `customer` was seen behind `provider`.
pub open spec fn has_customer(db: Map<u32, HashSet<u32>>, provider: u32, customer: u32) -> bool {
    db.contains_key(provider) && db[provider]@.contains(customer)
}

/// The verdict on a prefix: the downloaded bogon list's when there is one, else whether
/// its address lies in a locally known bogon range.
pub open spec fn bogon_by(verdict: Option<bool>, prefix: Seq<char>) -> bool {
    match verdict {
        Some(v) => v,
        None => local_bogon(prefix),
    }
}

/// Whether `prefix` is a bogon, given the bogon list's verdict (see [`bogon_by`]).
pub fn bogon_from(verdict: Option<bool>, prefix: &String) -> (r: bool)
    ensures
        r == bogon_by(verdict, prefix@),
{
    match verdict {
        Some(v) => v,
        None => is_local_bogon(prefix.as_str()),
    }
}

/// What a lookup of `asn` in a name cache can give: the cached value when there is one
/// (none for AS 0 when `zero_unnamed`); nothing without data sets otherwise.
pub open spec fn lookup_fits(
    cache: Map<u32, Option<String>>,
    no_data: bool,
    zero_unnamed: bool,
    asn: u32,
    v: Option<Seq<char>>,
) -> bool {
    if zero_unnamed && asn == 0 {
        v is None
    } else if cache.contains_key(asn) {
        v == opt_view(cache[asn])
    } else {
        no_data ==> v is None
    }
}

/// A name lower-cased, when there is one.
pub open spec fn lowered(n: Option<Seq<char>>) -> Option<Seq<char>> {
    match n {
        Some(t) => Some(crate::lookup::lowercase_of(t)),
        None => None,
    }
}

/// `r` is the sibling verdict on two AS numbers given the sibling lookup's answer `said`
/// (none without data sets), their organisation names `o1`, `o2` and AS names `n1`,
/// `n2` as the caches (`orgs`, `names`) or the data sets give them (see
/// [`crate::lookup::siblings_by`]).
#[allow(clippy::too_many_arguments)]
pub open spec fn sibling_answer(
    r: bool,
    orgs: Map<u32, Option<String>>,
    names: Map<u32, Option<String>>,
    no_data: bool,
    asn1: u32,
    asn2: u32,
    said: Option<bool>,
    o1: Option<Seq<char>>,
    o2: Option<Seq<char>>,
    n1: Option<Seq<char>>,
    n2: Option<Seq<char>>,
) -> bool {
    &&& (no_data ==> said is None)
    &&& lookup_fits(orgs, no_data, false, asn1, o1)
    &&& lookup_fits(orgs, no_data, false, asn2, o2)
    &&& lookup_fits(names, no_data, true, asn1, n1)
    &&& lookup_fits(names, no_data, true, asn2, n2)
    &&& r == crate::lookup::siblings_by(said, o1, o2, lowered(n1), lowered(n2))
}

impl Classifier {
    /// The origin recorded for the longest stored prefix covering the address of
    /// `prefix`, as [`origin_from_hit`] reads the lookup's answer; 0 when there is no store
    /// or `prefix` is no prefix. What the lookup finds is what the store holds at the time.
    pub fn get_historical_asn(&self, prefix: &String) -> (r: u32)
        ensures
            self.seen_db is None ==> r == 0,
            ipnet_parse(prefix@) is None ==> r == 0,
    {
        match &self.seen_db {
            None => 0,
            Some(db) => match parse_prefix(prefix.as_str()) {
                None => 0,
                Some(IpPrefix::V4 { addr, .. }) => origin_from_hit(db.lookup_lpm_v4(addr)),
                Some(IpPrefix::V6 { addr, .. }) => origin_from_hit(db.lookup_lpm_v6(addr)),
            },
        }
    }

    /// Whether `prefix` is a bogon: by the downloaded bogon list when it answers,
    /// otherwise by the locally known bogon ranges (see [`bogon_by`]).
    pub fn is_bogon(&self, prefix: &String) -> (r: bool)
        ensures
            self.bgpkit is None ==> r == local_bogon(prefix@),
    {
        let verdict = bogon_verdict(&self.bgpkit, prefix.as_str());
        bogon_from(verdict, prefix)
    }

    /// The RPKI code of `asn` announcing `prefix`: 1 valid, 2 invalid, 3 unknown, 0 when
    /// there is no verdict (no data sets, or `prefix` is no prefix).
    pub fn rpki_validate(&self, asn: u32, prefix: &String) -> (r: i32)
        ensures
            0 <= r <= 3,
            self.bgpkit is None ==> r == 0,
            ipnet_parse(prefix@) is None ==> r == 0,
    {
        let verdict = rpki_verdict(&self.bgpkit, asn, prefix.as_str());
        rpki_code_of(verdict)
    }

    /// The RPKI codes of stored prefixes `rows` (prefix text, origin), one per row, as
    /// [`Classifier::rpki_validate`] gives them; 0 for a row without origin, which is not
    /// looked up.
    pub fn rpki_codes(&self, rows: &Vec<(String, u32)>) -> (r: Vec<i32>)
        ensures
            r@.len() == rows@.len(),
            forall|i: int| 0 <= i < r@.len() ==> 0 <= #[trigger] r@[i] <= 3,
            forall|i: int| 0 <= i < r@.len() && rows@[i].1 == 0 ==> #[trigger] r@[i] == 0,
            forall|i: int| 0 <= i < r@.len() && self.bgpkit is None ==> #[trigger] r@[i] == 0,
            forall|i: int|
                0 <= i < r@.len() && ipnet_parse(rows@[i].0@) is None ==> #[trigger] r@[i] == 0,
    {
        let mut out: Vec<i32> = Vec::new();
        let mut i: usize = 0;
        while i < rows.len()
            invariant
                i <= rows@.len(),
                out@.len() == i,
                forall|k: int| 0 <= k < i ==> 0 <= #[trigger] out@[k] <= 3,
                forall|k: int| 0 <= k < i && rows@[k].1 == 0 ==> #[trigger] out@[k] == 0,
                forall|k: int| 0 <= k < i && self.bgpkit is None ==> #[trigger] out@[k] == 0,
                forall|k: int|
                    0 <= k < i && ipnet_parse(rows@[k].0@) is None ==> #[trigger] out@[k] == 0,
            decreases rows@.len() - i,
        {
            let code = if rows[i].1 == 0 {
                0
            } else {
                self.rpki_validate(rows[i].1, &rows[i].0)
            };
            out.push(code);
            i = i + 1;
        }
        out
    }

    /// The organisation `asn` is counted under in the coverage statistics, by the AS
    /// information of the data sets (see [`crate::lookup::org_label_of`]); none without
    /// data sets.
    pub fn org_label(&self, asn: u32) -> (r: Option<String>)
        ensures
            self.bgpkit is None ==> r is None,
    {
        org_label_from_info(asinfo_of(&self.bgpkit, asn))
    }

    /// The name of `asn`: none for AS 0; the name looked up before, if any; otherwise the
    /// name the AS information gives (see [`name_of_info`]), kept for later when found.
    pub fn get_as_name(&mut self, asn: u32) -> (r: Option<String>)
        ensures
            same_but_names(final(self), old(self)),
            final(self).bgpkit_cache.as2org == old(self).bgpkit_cache.as2org,
            asn == 0 ==> r is None && final(self).bgpkit_cache.as2name@ == old(
                self,
            ).bgpkit_cache.as2name@,
            asn != 0 && old(self).bgpkit_cache.as2name@.contains_key(asn) ==> r == old(
                self,
            ).bgpkit_cache.as2name@[asn] && final(self).bgpkit_cache.as2name@ == old(
                self,
            ).bgpkit_cache.as2name@,
            asn != 0 && !old(self).bgpkit_cache.as2name@.contains_key(asn) ==> cache_after(
                old(self).bgpkit_cache.as2name@,
                final(self).bgpkit_cache.as2name@,
                asn,
                r,
            ),
            asn != 0 && !old(self).bgpkit_cache.as2name@.contains_key(asn) && old(
                self,
            ).bgpkit is None ==> r is None,
    {
        if asn == 0 {
            return None;
        }
        match self.bgpkit_cache.as2name.get(&asn) {
            Some(found) => {
                return copy_opt(found);
            },
            None => {},
        }
        let info = asinfo_of(&self.bgpkit, asn);
        let name = name_from_info(info);
        if name.is_some() {
            self.bgpkit_cache.as2name.insert(asn, copy_opt(&name));
        }
        name
    }

    /// The organisation name of `asn`: the one looked up before, if any; otherwise the
    /// one the AS information gives (see [`org_of_info`]), kept for later when found.
    pub fn get_as_org(&mut self, asn: u32) -> (r: Option<String>)
        ensures
            same_but_names(final(self), old(self)),
            final(self).bgpkit_cache.as2name == old(self).bgpkit_cache.as2name,
            old(self).bgpkit_cache.as2org@.contains_key(asn) ==> r == old(
                self,
            ).bgpkit_cache.as2org@[asn] && final(self).bgpkit_cache.as2org@ == old(
                self,
            ).bgpkit_cache.as2org@,
            !old(self).bgpkit_cache.as2org@.contains_key(asn) ==> cache_after(
                old(self).bgpkit_cache.as2org@,
                final(self).bgpkit_cache.as2org@,
                asn,
                r,
            ),
            !old(self).bgpkit_cache.as2org@.contains_key(asn) && old(self).bgpkit is None
                ==> r is None,
    {
        match self.bgpkit_cache.as2org.get(&asn) {
            Some(found) => {
                return copy_opt(found);
            },
            None => {},
        }
        let info = asinfo_of(&self.bgpkit, asn);
        let org = org_from_info(info);
        if org.is_some() {
            self.bgpkit_cache.as2org.insert(asn, copy_opt(&org));
        }
        org
    }

    /// Whether two AS numbers are likely run by one operator: equal numbers are; others
    /// are when the sibling lookup, the organisation names or the lower-cased AS names
    /// say so (see [`sibling_answer`]).
    pub fn is_likely_sibling(&mut self, asn1: u32, asn2: u32) -> (r: bool)
        ensures
            same_but_names(final(self), old(self)),
            asn1 == asn2 ==> r,
            asn1 != asn2 ==> exists|
                said: Option<bool>,
                o1: Option<Seq<char>>,
                o2: Option<Seq<char>>,
                n1: Option<Seq<char>>,
                n2: Option<Seq<char>>,
            |
                #[trigger] sibling_answer(
                    r,
                    old(self).bgpkit_cache.as2org@,
                    old(self).bgpkit_cache.as2name@,
                    old(self).bgpkit is None,
                    asn1,
                    asn2,
                    said,
                    o1,
                    o2,
                    n1,
                    n2,
                ),
    {
        if asn1 == asn2 {
            return true;
        }
        let said = sibling_verdict(&self.bgpkit, asn1, asn2);
        let org1 = self.get_as_org(asn1);
        let org2 = self.get_as_org(asn2);
        let name1 = self.get_as_name(asn1);
        let name2 = self.get_as_name(asn2);
        let lower1 = lowercase_opt(&name1);
        let lower2 = lowercase_opt(&name2);
        let r = siblings_from(said, &org1, &org2, &lower1, &lower2);
        assert(sibling_answer(
            r,
            old(self).bgpkit_cache.as2org@,
            old(self).bgpkit_cache.as2name@,
            old(self).bgpkit is None,
            asn1,
            asn2,
            said,
            opt_view(org1),
            opt_view(org2),
            opt_view(name1),
            opt_view(name2),
        ));
        r
    }

    /// The rank of `asn`, from its AS information when the data sets are loaded (see
    /// [`rank_of`]).
    pub fn asn_rank(&self, asn: u32) -> (r: AsnRank)
        ensures
            self.bgpkit is None ==> r == rank_of(asn, None),
            tier1_listed(asn) ==> r.tier1,
            large_listed(asn) ==> r.large,
    {
        let info = asinfo_of(&self.bgpkit, asn);
        rank_from_info(asn, &info)
    }

    /// Whether `asn` is a tier-1 transit network (see [`rank_of`]).
    pub fn is_tier1(&self, asn: u32) -> (r: bool)
        ensures
            self.bgpkit is None ==> r == tier1_listed(asn),
            tier1_listed(asn) ==> r,
    {
        self.asn_rank(asn).tier1
    }

    /// Whether `asn` is a large network (see [`rank_of`]).
    pub fn is_large_network(&self, asn: u32) -> (r: bool)
        ensures
            self.bgpkit is None ==> r == large_listed(asn),
            large_listed(asn) ==> r,
    {
        self.asn_rank(asn).large
    }

    /// The rank of each AS on `path`, in order.
    pub fn path_ranks(&self, path: &Vec<u32>) -> (r: Vec<AsnRank>)
        ensures
            r@.len() == path@.len(),
            forall|i: int|
                0 <= i < path@.len() ==> {
                    &&& (self.bgpkit is None ==> #[trigger] r@[i] == rank_of(path@[i], None))
                    &&& (tier1_listed(path@[i]) ==> r@[i].tier1)
                    &&& (large_listed(path@[i]) ==> r@[i].large)
                },
    {
        let mut r: Vec<AsnRank> = Vec::new();
        let mut i: usize = 0;
        while i < path.len()
            invariant
                i <= path@.len(),
                r@.len() == i,
                forall|j: int|
                    0 <= j < i ==> {
                        &&& (self.bgpkit is None ==> #[trigger] r@[j] == rank_of(path@[j], None))
                        &&& (tier1_listed(path@[j]) ==> r@[j].tier1)
                        &&& (large_listed(path@[j]) ==> r@[j].large)
                    },
            decreases path@.len() - i,
        {
            let rank = self.asn_rank(path[i]);
            r.push(rank);
            i = i + 1;
        }
        r
    }

    /// Records, for each AS on `path` that is tier-1 or large, the next AS as its
    /// customer.
    pub fn update_provider_info(&mut self, path: &Vec<u32>)
        ensures
            same_but_providers(final(self), old(self)),
            forall|p: u32, c: u32|
                #[trigger] has_customer(old(self).provider_db@, p, c) ==> has_customer(
                    final(self).provider_db@,
                    p,
                    c,
                ),
            forall|p: u32, c: u32|
                #[trigger] has_customer(final(self).provider_db@, p, c) && !has_customer(
                    old(self).provider_db@,
                    p,
                    c,
                ) ==> exists|i: int|
                    0 <= i && i + 1 < path@.len() && #[trigger] path@[i] == p && path@[i + 1]
                        == c,
            forall|i: int|
                0 <= i && i + 1 < path@.len() && (tier1_listed(#[trigger] path@[i])
                    || large_listed(path@[i])) ==> has_customer(
                    final(self).provider_db@,
                    path@[i],
                    path@[i + 1],
                ),
    {
        if path.len() < 2 {
            return;
        }
        let n = path.len() - 1;
        let mut i: usize = 0;
        while i < n
            invariant
                n + 1 == path@.len(),
                i <= n,
                same_but_providers(self, old(self)),
                forall|p: u32, c: u32|
                    #[trigger] has_customer(old(self).provider_db@, p, c) ==> has_customer(
                        self.provider_db@,
                        p,
                        c,
                    ),
                forall|p: u32, c: u32|
                    #[trigger] has_customer(self.provider_db@, p, c) && !has_customer(
                        old(self).provider_db@,
                        p,
                        c,
                    ) ==> exists|j: int|
                        0 <= j && j + 1 < path@.len() && #[trigger] path@[j] == p && path@[j
                            + 1] == c,
                forall|j: int|
                    0 <= j < i && (tier1_listed(#[trigger] path@[j]) || large_listed(path@[j]))
                        ==> has_customer(self.provider_db@, path@[j], path@[j + 1]),
            decreases n - i,
        {
            let p = path[i];
            let c = path[i + 1];
            let rank = self.asn_rank(p);
            if rank.tier1 || rank.large {
                let ghost before = self.provider_db@;
                let mut customers = match self.provider_db.remove(&p) {
                    Some(s) => s,
                    None => HashSet::new(),
                };
                customers.insert(c);
                self.provider_db.insert(p, customers);
                assert forall|q: u32, d: u32|
                    #[trigger] has_customer(self.provider_db@, q, d) && !has_customer(
                        before,
                        q,
                        d,
                    ) implies q == p && d == c by {}
                assert(path@[i as int] == p && path@[i + 1] == c);
            }
            i = i + 1;
        }
    }

    /// Whether `customer` was seen behind `provider`.
    pub fn is_provider(&self, provider: u32, customer: u32) -> (r: bool)
        ensures
            r == has_customer(self.provider_db@, provider, customer),
    {
        match self.provider_db.get(&provider) {
            Some(cs) => cs.contains(&customer),
            None => false,
        }
    }
}

/// `e` is `base` with its AS names and RPKI statuses filled in: the same otherwise, and
/// the statuses are RPKI codes.
pub open spec fn named_from(e: EventView, base: EventView) -> bool {
    &&& e == EventView { as_name: e.as_name, leak_detail: e.leak_detail, ..base }
    &&& match (e.leak_detail, base.leak_detail) {
        (Some(l), Some(b)) => {
            &&& l == LeakView {
                leaker_as_name: l.leaker_as_name,
                victim_as_name: l.victim_as_name,
                leaker_rpki_status: l.leaker_rpki_status,
                victim_rpki_status: l.victim_rpki_status,
                ..b
            }
            &&& 0 <= l.leaker_rpki_status <= 3
            &&& 0 <= l.victim_rpki_status <= 3
        },
        (None, None) => true,
        _ => false,
    }
}

/// The view of an optional prefix state.
pub open spec fn opt_state_view(o: Option<PrefixState>) -> Option<PrefixStateView> {
    match o {
        Some(s) => Some(s@),
        None => None,
    }
}

/// The state an update starts from: the cached one; else the stored one, when it is
/// well formed; else the state of a newly seen prefix.
pub open spec fn starts_from(
    cached: Map<Seq<char>, PrefixStateView>,
    prefix: Seq<char>,
    stored: Option<PrefixStateView>,
    st0: PrefixStateView,
) -> bool {
    if cached.contains_key(prefix) {
        st0 == cached[prefix]
    } else {
        match stored {
            Some(s) if s.wf() => st0 == s,
            _ => exists|t: i64| st0 == fresh_state(t),
        }
    }
}

/// The ranks fit the AS path: one per AS; listed networks rank as listed; without data
/// sets, the listing alone decides.
pub open spec fn ranks_fit(ranks: Seq<AsnRank>, path: Seq<u32>, no_data: bool) -> bool {
    &&& ranks.len() == path.len()
    &&& forall|i: int|
        0 <= i < path.len() ==> {
            &&& (no_data ==> #[trigger] ranks[i] == rank_of(path[i], None))
            &&& (tier1_listed(path[i]) ==> ranks[i].tier1)
            &&& (large_listed(path[i]) ==> ranks[i].large)
        }
}

/// The facts of an update as the classifier gathers them: the blackhole request and the
/// leak read off the update itself (the leak by the ranks of the path's ASes); without
/// data sets, the bogon verdict by the local ranges and no RPKI verdict; siblings (as
/// [`sibling_answer`] describes, from the name caches `orgs` and `names`) and RPKI
/// asked only when the origin changed (and RPKI only for non-siblings).
#[allow(clippy::too_many_arguments)]
pub open spec fn facts_fit(
    f: Facts,
    ranks: Seq<AsnRank>,
    c: CtxView,
    prefix: Seq<char>,
    hist: u32,
    no_data: bool,
    orgs: Map<u32, Option<String>>,
    names: Map<u32, Option<String>>,
) -> bool {
    &&& f.ddos == has_blackhole_community(c.comm_str)
    &&& ranks_fit(ranks, path_asns(c.path_str), no_data)
    &&& f.leak == route_leak(path_asns(c.path_str), ranks)
    &&& (no_data ==> f.bogon == local_bogon(prefix))
    &&& (!origin_changed(c.origin_asn, hist) ==> !f.sibling)
    &&& (origin_changed(c.origin_asn, hist) ==> exists|
        said: Option<bool>,
        o1: Option<Seq<char>>,
        o2: Option<Seq<char>>,
        n1: Option<Seq<char>>,
        n2: Option<Seq<char>>,
    |
        #[trigger] sibling_answer(f.sibling, orgs, names, no_data, c.origin_asn, hist, said, o1, o2, n1, n2))
    &&& 0 <= f.origin_rpki <= 3
    &&& (!origin_changed(c.origin_asn, hist) || f.sibling || no_data || ipnet_parse(prefix)
        is None ==> f.origin_rpki == 0)
}

/// The historical origin an update is judged with: the state's own when it has one;
/// none found without an origin store or for text that is no prefix.
pub open spec fn hist_fits(hist: u32, st0: PrefixStateView, no_store: bool, prefix: Seq<char>) -> bool {
    &&& (st0.historical_origin_asn != 0 ==> hist == st0.historical_origin_asn)
    &&& (st0.historical_origin_asn == 0 && (no_store || ipnet_parse(prefix) is None) ==> hist
        == 0)
}

/// The view of an optional event.
pub open spec fn opt_event_view(o: Option<PendingEvent>) -> Option<EventView> {
    match o {
        Some(e) => Some(e@),
        None => None,
    }
}

/// An applied update of `prefix` explained: starting from `st0` (see [`starts_from`]),
/// judged with the historical origin `hist` (see [`hist_fits`]) and the facts `f`
/// gathered with the ranks `ranks` (see [`facts_fit`]), the update `c` at `g` gives
/// the state now cached (`m0` before, `m1` after), the timer request, the writes and the
/// event, named (see [`step`], [`named_from`]).
#[allow(clippy::too_many_arguments)]
pub open spec fn applied_as(
    m0: Map<Seq<char>, PrefixStateView>,
    m1: Map<Seq<char>, PrefixStateView>,
    prefix: Seq<char>,
    c: CtxView,
    g: GeoView,
    stored: Option<PrefixStateView>,
    no_store: bool,
    no_data: bool,
    orgs: Map<u32, Option<String>>,
    names: Map<u32, Option<String>>,
    event: Option<EventView>,
    needs_timer: bool,
    writes: Seq<WriteView>,
    st0: PrefixStateView,
    hist: u32,
    f: Facts,
    ranks: Seq<AsnRank>,
    fresh: Seq<char>,
) -> bool {
    let sv = step(st0, prefix, c, hist, f, fresh, g);
    &&& starts_from(m0, prefix, stored, st0)
    &&& hist_fits(hist, st0, no_store, prefix)
    &&& facts_fit(f, ranks, c, prefix, hist, no_data, orgs, names)
    &&& step_defined(st0, c.now)
    &&& cache_stored(m0, m1, prefix, sv.state)
    &&& m1.contains_key(prefix)
    &&& m1[prefix] == sv.state
    &&& needs_timer == sv.needs_timer
    &&& writes == sv.writes
    &&& match event {
        Some(e) => (sv.event matches Some(b) && named_from(e, b)),
        None => sv.event is None,
    }
}

/// An update of `prefix` handled as [`Classifier::classify_event`] describes: not
/// applied (no event, timer request or writes, the cache's contents kept), or applied as
/// [`applied_as`] explains for some starting state, historical origin, facts and ranks,
/// with `incident` the name of an incident that opens.
#[allow(clippy::too_many_arguments)]
pub open spec fn update_applied(
    before: &Classifier,
    after: &Classifier,
    prefix: Seq<char>,
    c: CtxView,
    g: GeoView,
    stored: Option<PrefixStateView>,
    event: Option<EventView>,
    needs_timer: bool,
    writes: Seq<WriteView>,
    incident: Seq<char>,
) -> bool {
    let m0 = cached_states(before.shards@[shard_of(prefix)]);
    let m1 = cached_states(after.shards@[shard_of(prefix)]);
    ||| (event is None && !needs_timer && writes.len() == 0 && m1 == m0)
    ||| exists|
        st0: PrefixStateView,
        hist: u32,
        f: Facts,
        ranks: Seq<AsnRank>,
    |
        #[trigger] applied_as(
            m0,
            m1,
            prefix,
            c,
            g,
            stored,
            before.seen_db is None,
            before.bgpkit is None,
            before.bgpkit_cache.as2org@,
            before.bgpkit_cache.as2name@,
            event,
            needs_timer,
            writes,
            st0,
            hist,
            f,
            ranks,
            incident,
        )
}

/// The result of classifying one update.
pub struct ClassifyOutcome {
    /// The event to publish, if any.
    pub event: Option<PendingEvent>,
    /// The prefix should be looked at again by the outage timer.
    pub needs_timer: bool,
    /// The writes to the prefix-state store, in order.
    pub writes: Vec<DbWrite>,
    /// The update was applied; it is not when its time lies so far from the state's
    /// times that their differences leave the `i64` range.
    pub applied: bool,
}

/// Whether one update at `now` can be applied to `state` (see [`step_defined`]).
pub fn step_is_defined(state: &PrefixState, now: i64) -> (r: bool)
    ensures
        r == step_defined(state@, now),
{
    if now < i64::MIN + 3600 {
        return false;
    }
    let d = now as i128 - state.classified_time_ts as i128;
    if d < i64::MIN as i128 || d > i64::MAX as i128 {
        return false;
    }
    match state.fully_withdrawn_ts {
        Some(fw) => {
            let e = now as i128 - fw as i128;
            e >= i64::MIN as i128 && e <= i64::MAX as i128
        },
        None => true,
    }
}

/// An outage is due for the state at `now`: no session has announced the prefix for ten
/// seconds and it is not classified as an outage yet.
pub open spec fn outage_due(st: PrefixStateView, now: i64) -> bool {
    &&& st.fully_withdrawn_ts matches Some(fw) && now - fw >= 10
    &&& st.classified_type != ClassificationType::Outage
}

/// The origin an outage is attributed to: the last announced one, else the historical.
pub open spec fn outage_origin(st: PrefixStateView) -> u32 {
    if st.last_origin_asn != 0 {
        st.last_origin_asn
    } else {
        st.historical_origin_asn
    }
}

/// The state once an outage is declared at `now`: classified as an outage since `now`,
/// under its running incident or, when there is none, the incident `fresh`.
pub open spec fn outage_state(st: PrefixStateView, now: i64, fresh: Seq<char>) -> PrefixStateView {
    PrefixStateView {
        classified_type: ClassificationType::Outage,
        classified_time_ts: now,
        active_incident_id: if st.active_incident_id is None {
            Some(fresh)
        } else {
            st.active_incident_id
        },
        ..st
    }
}

/// The event of an outage declared by the timer at `now` for the state `st` (already
/// classified as an outage), unnamed.
pub open spec fn outage_event(st: PrefixStateView, prefix: Seq<char>, now: i64) -> EventView {
    let origin = outage_origin(st);
    let a = aggregate(st, now, origin);
    EventView {
        prefix,
        asn: origin,
        as_name: seq![],
        peer_ip: "synthetic"@,
        historical_asn: st.historical_origin_asn,
        timestamp: now,
        classification_type: ClassificationType::Outage,
        old_classification: ClassificationType::Unclassified,
        incident_id: st.active_incident_id,
        incident_start_time: now,
        leak_detail: None,
        anomaly_details: Some(
            AnomalyDetails {
                num_collectors: a.unique_hosts.len() as usize,
                num_peers: a.withdrawn_peers.len() as usize,
                num_withdrawals: a.totals.total_with,
                num_announcements: 0,
                flap_count: 0,
            },
        ),
        source: "timer"@,
        lat_bits: st.lat_bits,
        lon_bits: st.lon_bits,
        city: st.city,
        country: st.country,
    }
}

/// The store write of a declared outage.
pub open spec fn outage_write(st: PrefixStateView, prefix: Seq<char>) -> WriteView {
    WriteView::Upsert {
        prefix,
        state: st,
        ts: st.last_update_ts,
        c_type: classification_code(ClassificationType::Outage),
        asn: outage_origin(st),
    }
}

/// Declares an outage for `state` at `now` when one is due (see [`outage_due`]): the
/// state becomes [`outage_state`] and the unnamed [`outage_event`] is returned.
pub fn declare_outage(state: &mut PrefixState, prefix: &String, now: i64, fresh: &String) -> (r:
    Option<PendingEvent>)
    requires
        old(state)@.wf(),
        now >= i64::MIN + 600,
    ensures
        final(state)@.wf(),
        !outage_due(old(state)@, now) ==> r is None && final(state)@ == old(state)@,
        outage_due(old(state)@, now) ==> final(state)@ == outage_state(old(state)@, now, fresh@)
            && (r matches Some(e) && e@ == outage_event(final(state)@, prefix@, now)),
{
    let due = match state.fully_withdrawn_ts {
        Some(fw) => now as i128 - fw as i128 >= 10,
        None => false,
    };
    if !due || state.classified_type == ClassificationType::Outage {
        return None;
    }
    state.classified_type = ClassificationType::Outage;
    state.classified_time_ts = now;
    if state.active_incident_id.is_none() {
        state.active_incident_id = Some(fresh.clone());
    }
    let origin = if state.last_origin_asn != 0 {
        state.last_origin_asn
    } else {
        state.historical_origin_asn
    };
    let s = aggregate_recent_buckets(state, now, origin);
    let e = PendingEvent {
        prefix: prefix.clone(),
        asn: origin,
        as_name: String::new(),
        peer_ip: "synthetic".to_owned(),
        historical_asn: state.historical_origin_asn,
        timestamp: now,
        classification_type: ClassificationType::Outage,
        old_classification: ClassificationType::Unclassified,
        incident_id: copy_opt(&state.active_incident_id),
        incident_start_time: now,
        leak_detail: None,
        anomaly_details: Some(
            AnomalyDetails {
                num_collectors: s.unique_hosts.len(),
                num_peers: s.withdrawn_peers.len(),
                num_withdrawals: s.total_with,
                num_announcements: 0,
                flap_count: 0,
            },
        ),
        source: "timer".to_owned(),
        lat_bits: state.lat_bits,
        lon_bits: state.lon_bits,
        city: copy_opt(&state.city),
        country: copy_opt(&state.country),
    };
    Some(e)
}

impl Classifier {
    /// `ev` with its AS name, and its leak's AS names and RPKI statuses, looked up (see
    /// [`named_from`]).
    fn name_event(&mut self, ev: PendingEvent, prefix: &String) -> (r: PendingEvent)
        ensures
            same_but_names(final(self), old(self)),
            named_from(r@, ev@),
    {
        let mut ev = ev;
        let as_name = match self.get_as_name(ev.asn) {
            Some(n) => n,
            None => String::new(),
        };
        let leak = match &ev.leak_detail {
            Some(ld) => {
                let leaker_as_name = match self.get_as_name(ld.leaker_asn) {
                    Some(n) => n,
                    None => String::new(),
                };
                let victim_as_name = match self.get_as_name(ld.victim_asn) {
                    Some(n) => n,
                    None => String::new(),
                };
                Some(
                    LeakDetail {
                        leak_type: ld.leak_type,
                        leaker_asn: ld.leaker_asn,
                        victim_asn: ld.victim_asn,
                        leaker_as_name,
                        victim_as_name,
                        leaker_rpki_status: self.rpki_validate(ld.leaker_asn, prefix),
                        victim_rpki_status: self.rpki_validate(ld.victim_asn, prefix),
                    },
                )
            },
            None => None,
        };
        ev.as_name = as_name;
        ev.leak_detail = leak;
        ev
    }

    /// Classifies one update `ctx` of `prefix` located at `lat_bits`/`lon_bits`, `city`,
    /// `country`. The update applies to the cached state of `prefix`; else to `stored`
    /// (the state read back from the store) when it is well formed; else to a new state
    /// (see [`starts_from`]). The historical origin is the state's, else looked up in the
    /// origin store; the facts are gathered from the update and the data sets (see
    /// [`facts_fit`]); the update is then applied (see [`step`]), with `incident_id` the
    /// name of an incident it opens, the event named, and
    /// the new state cached.
    #[verifier::rlimit(50)]
    #[allow(clippy::too_many_arguments)]
    pub fn classify_event(
        &mut self,
        prefix: String,
        ctx: &MessageContext,
        lat_bits: u32,
        lon_bits: u32,
        city: Option<String>,
        country: Option<String>,
        stored: Option<PrefixState>,
        incident_id: String,
    ) -> (r: ClassifyOutcome)
        requires
            old(self).wf(),
        ensures
            final(self).wf(),
            final(self).seen_db == old(self).seen_db,
            final(self).bgpkit == old(self).bgpkit,
            forall|j: int|
                0 <= j < NUM_SHARDS && j != shard_of(prefix@) ==> #[trigger] final(self).shards@[j]
                    == old(self).shards@[j],
            !r.applied ==> r.event is None && !r.needs_timer && r.writes@.len() == 0
                && cached_states(final(self).shards@[shard_of(prefix@)]) == cached_states(
                old(self).shards@[shard_of(prefix@)],
            ),
            !r.applied ==> exists|st0: PrefixStateView|
                #[trigger] starts_from(
                    cached_states(old(self).shards@[shard_of(prefix@)]),
                    prefix@,
                    opt_state_view(stored),
                    st0,
                ) && !step_defined(st0, ctx@.now),
            r.applied ==> exists|
                st0: PrefixStateView,
                hist: u32,
                f: Facts,
                ranks: Seq<AsnRank>,
            |
                #[trigger] applied_as(
                    cached_states(old(self).shards@[shard_of(prefix@)]),
                    cached_states(final(self).shards@[shard_of(prefix@)]),
                    prefix@,
                    ctx@,
                    GeoView { lat_bits, lon_bits, city: opt_view(city), country: opt_view(country) },
                    opt_state_view(stored),
                    old(self).seen_db is None,
                    old(self).bgpkit is None,
                    old(self).bgpkit_cache.as2org@,
                    old(self).bgpkit_cache.as2name@,
                    opt_event_view(r.event),
                    r.needs_timer,
                    writes_view(r.writes@),
                    st0,
                    hist,
                    f,
                    ranks,
                    incident_id@,
                ),
    {
        let (i, mut state) = self.start_state(&prefix, stored);
        let ghost st0 = state@;
        let ghost mid = *self;
        if !step_is_defined(&state, ctx.now) {
            assert(starts_from(
                cached_states(old(self).shards@[shard_of(prefix@)]),
                prefix@,
                opt_state_view(stored),
                st0,
            ));
            return ClassifyOutcome {
                event: None,
                needs_timer: false,
                writes: Vec::new(),
                applied: false,
            };
        }
        let hist = if state.historical_origin_asn != 0 {
            state.historical_origin_asn
        } else {
            self.get_historical_asn(&prefix)
        };
        assert(hist_fits(hist, st0, old(self).seen_db is None, prefix@));
        let (facts, ranks) = self.gather_facts(&prefix, ctx, hist);
        let fresh = incident_id;
        let out = classify_step(
            &mut state,
            &prefix,
            ctx,
            hist,
            facts,
            &fresh,
            lat_bits,
            lon_bits,
            &city,
            &country,
        );
        let event = match out.event {
            Some(e) => Some(self.name_event(e, &prefix)),
            None => None,
        };
        let ghost pv = prefix@;
        self.store_state(i, prefix, state);
        let r = ClassifyOutcome {
            event,
            needs_timer: out.needs_timer,
            writes: out.writes,
            applied: true,
        };
        assert(applied_as(
            cached_states(old(self).shards@[i as int]),
            cached_states(self.shards@[i as int]),
            pv,
            ctx@,
            GeoView { lat_bits, lon_bits, city: opt_view(city), country: opt_view(country) },
            opt_state_view(stored),
            old(self).seen_db is None,
            old(self).bgpkit is None,
            old(self).bgpkit_cache.as2org@,
            old(self).bgpkit_cache.as2name@,
            opt_event_view(r.event),
            r.needs_timer,
            writes_view(r.writes@),
            st0,
            hist,
            facts,
            ranks@,
            fresh@,
        ));
        r
    }

    /// The cache of `prefix` and the state an update of it starts from (see
    /// [`starts_from`]); the cache keeps its contents.
    fn start_state(&mut self, prefix: &String, stored: Option<PrefixState>) -> (r: (
        usize,
        PrefixState,
    ))
        requires
            old(self).wf(),
        ensures
            final(self).wf(),
            r.0 == shard_of(prefix@),
            final(self).seen_db == old(self).seen_db,
            final(self).bgpkit == old(self).bgpkit,
            final(self).bgpkit_cache == old(self).bgpkit_cache,
            final(self).provider_db == old(self).provider_db,
            forall|j: int|
                0 <= j < NUM_SHARDS && j != r.0 ==> #[trigger] final(self).shards@[j] == old(
                    self,
                ).shards@[j],
            cached_states(final(self).shards@[r.0 as int]) == cached_states(
                old(self).shards@[r.0 as int],
            ),
            starts_from(
                cached_states(old(self).shards@[r.0 as int]),
                prefix@,
                opt_state_view(stored),
                r.1@,
            ),
            r.1@.wf(),
    {
        let i = shard_index(prefix.as_str());
        let cached = cache_get(&mut self.shards[i], prefix);
        proof {
            assert(cache_ok(old(self).shards@[i as int]));
            assert(cache_ok(self.shards@[i as int]));
            assert forall|j: int| 0 <= j < NUM_SHARDS implies #[trigger] cache_ok(self.shards@[j]) by {
                if j != i {
                    assert(self.shards@[j] == old(self).shards@[j]);
                }
            }
        }
        let state = match cached {
            Some(s) => s,
            None => {
                let usable = match stored {
                    Some(s) => if s.is_well_formed() {
                        Some(s)
                    } else {
                        None
                    },
                    None => None,
                };
                match usable {
                    Some(s) => s,
                    None => {
                        let fresh_st = PrefixState::default();
                        assert(fresh_st@.peers.len() == 0);
                        fresh_st
                    },
                }
            },
        };
        (i, state)
    }

    /// The facts of the update `ctx` of `prefix` (see [`facts_fit`]), with the ranks of
    /// the ASes on its path; announcements also record the customers on the path.
    fn gather_facts(&mut self, prefix: &String, ctx: &MessageContext, hist: u32) -> (r: (
        Facts,
        Vec<AsnRank>,
    ))
        ensures
            final(self).shards == old(self).shards,
            final(self).seen_db == old(self).seen_db,
            final(self).bgpkit == old(self).bgpkit,
            facts_fit(
                r.0,
                r.1@,
                ctx@,
                prefix@,
                hist,
                old(self).bgpkit is None,
                old(self).bgpkit_cache.as2org@,
                old(self).bgpkit_cache.as2name@,
            ),
    {
        let path = parse_path(ctx.path_str.as_str());
        let ranks = self.path_ranks(&path);
        let leak = detect_route_leak(&path, &ranks);
        let bogon = self.is_bogon(prefix);
        let origin = ctx.origin_asn;
        let changed = hist != 0 && origin != 0 && origin != hist;
        let sibling = if changed {
            let ghost orgs = self.bgpkit_cache.as2org@;
            let ghost names = self.bgpkit_cache.as2name@;
            let ghost no_data = self.bgpkit is None;
            let s = self.is_likely_sibling(origin, hist);
            proof {
                let (said, o1, o2, n1, n2) = choose|
                    said: Option<bool>,
                    o1: Option<Seq<char>>,
                    o2: Option<Seq<char>>,
                    n1: Option<Seq<char>>,
                    n2: Option<Seq<char>>,
                | sibling_answer(s, orgs, names, no_data, origin, hist, said, o1, o2, n1, n2);
                assert(sibling_answer(
                    s,
                    old(self).bgpkit_cache.as2org@,
                    old(self).bgpkit_cache.as2name@,
                    old(self).bgpkit is None,
                    ctx@.origin_asn,
                    hist,
                    said,
                    o1,
                    o2,
                    n1,
                    n2,
                ));
            }
            s
        } else {
            false
        };
        let origin_rpki = if changed && !sibling {
            self.rpki_validate(origin, prefix)
        } else {
            0
        };
        let ddos = is_ddos_mitigation(ctx.comm_str.as_str());
        if !ctx.is_withdrawal {
            self.update_provider_info(&path);
        }
        let facts = Facts { bogon, sibling, origin_rpki, leak, ddos };
        assert(facts.sibling == sibling);
        (facts, ranks)
    }

    /// Caches `state` under `prefix` in cache `i`.
    fn store_state(&mut self, i: usize, prefix: String, state: PrefixState)
        requires
            old(self).wf(),
            i == shard_of(prefix@),
            state@.wf(),
        ensures
            final(self).wf(),
            final(self).seen_db == old(self).seen_db,
            final(self).bgpkit == old(self).bgpkit,
            forall|j: int|
                0 <= j < NUM_SHARDS && j != i ==> #[trigger] final(self).shards@[j] == old(
                    self,
                ).shards@[j],
            cached_states(final(self).shards@[i as int]).contains_key(prefix@),
            cached_states(final(self).shards@[i as int])[prefix@] == state@,
            cache_stored(
                cached_states(old(self).shards@[i as int]),
                cached_states(final(self).shards@[i as int]),
                prefix@,
                state@,
            ),
    {
        let ghost m0 = cached_states(self.shards@[i as int]);
        let ghost pv = prefix@;
        let ghost sv = state@;
        proof {
            assert(cache_ok(self.shards@[i as int]));
        }
        cache_put(&mut self.shards[i], prefix, state);
        proof {
            let m1 = cached_states(self.shards@[i as int]);
            assert(m1.contains_key(pv) && m1[pv] == sv);
            assert forall|k: Seq<char>| #[trigger] m1.contains_key(k) implies m1[k].wf() by {
                if k != pv {
                    assert(m0.contains_key(k));
                }
            }
            assert(cache_ok(self.shards@[i as int]));
            assert forall|j: int| 0 <= j < NUM_SHARDS implies #[trigger] cache_ok(self.shards@[j]) by {
                if j != i {
                    assert(self.shards@[j] == old(self).shards@[j]);
                }
            }
        }
    }

    /// The outage timer's check of `prefix` at `now`: when its cached state is due an
    /// outage (see [`outage_due`]), the outage is declared (see [`declare_outage`]; an
    /// incident it opens is named `incident_id`), the event named and returned with the write that stores the state; otherwise nothing
    /// happens.
    pub fn check_outage(&mut self, prefix: &String, now: i64, incident_id: &String) -> (r: StepOutcome)
        requires
            old(self).wf(),
            now >= i64::MIN + 600,
        ensures
            final(self).wf(),
            final(self).seen_db == old(self).seen_db,
            final(self).bgpkit == old(self).bgpkit,
            !r.needs_timer,
            forall|j: int|
                0 <= j < NUM_SHARDS && j != shard_of(prefix@) ==> #[trigger] final(self).shards@[j]
                    == old(self).shards@[j],
            ({
                let m0 = cached_states(old(self).shards@[shard_of(prefix@)]);
                let m1 = cached_states(final(self).shards@[shard_of(prefix@)]);
                if m0.contains_key(prefix@) && outage_due(m0[prefix@], now) {
                    {
                            let st1 = outage_state(m0[prefix@], now, incident_id@);
                            &&& cache_stored(m0, m1, prefix@, st1)
                            &&& m1.contains_key(prefix@)
                            &&& m1[prefix@] == st1
                            &&& (r.event matches Some(e) && named_from(
                                e@,
                                outage_event(st1, prefix@, now),
                            ))
                            &&& writes_view(r.writes@) == seq![outage_write(st1, prefix@)]
                        }
                } else {
                    &&& r.event is None
                    &&& r.writes@.len() == 0
                    &&& m1 == m0
                }
            }),
    {
        let i = shard_index(prefix.as_str());
        let cached = cache_get(&mut self.shards[i], prefix);
        proof {
            assert(cache_ok(old(self).shards@[i as int]));
            assert(cache_ok(self.shards@[i as int]));
        }
        let mut state = match cached {
            Some(s) => s,
            None => {
                return StepOutcome { event: None, needs_timer: false, writes: Vec::new() };
            },
        };
        let ghost st0 = state@;
        let declared = declare_outage(&mut state, prefix, now, incident_id);
        let e = match declared {
            Some(e) => e,
            None => {
                return StepOutcome { event: None, needs_timer: false, writes: Vec::new() };
            },
        };
        let named = self.name_event(e, prefix);
        let origin = if state.last_origin_asn != 0 {
            state.last_origin_asn
        } else {
            state.historical_origin_asn
        };
        let mut writes: Vec<DbWrite> = Vec::new();
        writes.push(
            DbWrite::Upsert {
                prefix: prefix.clone(),
                state: state.copy(),
                ts: state.last_update_ts,
                c_type: state.classified_type.as_i32(),
                asn: origin,
            },
        );
        assert(writes_view(writes@) =~= seq![outage_write(state@, prefix@)]);
        self.store_state(i, prefix.clone(), state);
        StepOutcome { event: Some(named), needs_timer: false, writes }
    }
}
/// `LruCache::iter`: every cached state with its prefix, most recently used first (the
/// order of use is left alone), copied. Claimed: the list holds each cached prefix once,
/// with the state cached under it, and nothing else.
#[verifier::external_body]
fn cache_entries(c: &LruCache<String, PrefixState, RandomState>) -> (r: Vec<(String, PrefixState)>)
    ensures
        forall|i: int|
            0 <= i < r@.len() ==> cached_states(*c).contains_key(#[trigger] r@[i].0@) && r@[i].1@
                == cached_states(*c)[r@[i].0@],
        forall|k: Seq<char>|
            #[trigger] cached_states(*c).contains_key(k) ==> exists|i: int|
                0 <= i < r@.len() && #[trigger] r@[i].0@ == k,
        forall|i: int, j: int| 0 <= i < r@.len() && 0 <= j < r@.len() && i != j ==> r@[i].0@ != r@[j].0@,
{
    c.iter().map(|(k, v)| (k.clone(), v.copy())).collect()
}

/// The messages counted over a prefix's recent minutes (wrapping at 32 bits).
pub open spec fn messages_total(bs: Seq<(i64, crate::types::StatsBucket)>) -> u32
    decreases bs.len(),
{
    if bs.len() == 0 {
        0
    } else {
        crate::prefix_state::wadd(messages_total(bs.drop_last()), bs.last().1.total_messages)
    }
}

/// A classified prefix as the map lists it.
pub struct PrefixSnapshot {
    pub prefix: String,
    pub classification: ClassificationType,
    pub asn: u32,
    pub last_update_ts: i64,
    pub total_events: u32,
}

/// The snapshot of a prefix's state: its classification, last origin, last update and
/// message total.
pub open spec fn snapshot_of(s: PrefixSnapshot, prefix: Seq<char>, st: PrefixStateView) -> bool {
    &&& s.prefix@ == prefix
    &&& s.classification == st.classified_type
    &&& s.asn == st.last_origin_asn
    &&& s.last_update_ts == st.last_update_ts
    &&& s.total_events == messages_total(st.buckets)
}

/// The messages counted over the buckets (see [`messages_total`]).
fn bucket_messages(bs: &Vec<(i64, crate::types::StatsBucket)>) -> (r: u32)
    ensures
        r == messages_total(bs@),
{
    let mut t: u32 = 0;
    let mut i: usize = 0;
    while i < bs.len()
        invariant
            i <= bs@.len(),
            t == messages_total(bs@.take(i as int)),
        decreases bs@.len() - i,
    {
        proof {
            assert(bs@.take(i + 1).drop_last() =~= bs@.take(i as int));
        }
        t = t.wrapping_add(bs[i].1.total_messages);
        i = i + 1;
    }
    assert(bs@.take(i as int) =~= bs@);
    t
}

impl Classifier {
    /// Snapshots of the cached prefixes that are classified: each listed one is a cached
    /// classified state, and each cached classified state is listed.
    pub fn prefix_snapshots(&self) -> (r: Vec<PrefixSnapshot>)
        requires
            self.wf(),
        ensures
            forall|i: int|
                #![trigger r@[i]]
                0 <= i < r@.len() ==> exists|j: int|
                    #![trigger self.shards@[j]]
                    0 <= j < NUM_SHARDS && cached_states(self.shards@[j]).contains_key(r@[i].prefix@)
                        && snapshot_of(r@[i], r@[i].prefix@, cached_states(self.shards@[j])[r@[i].prefix@])
                        && r@[i].classification != ClassificationType::Unclassified,
            forall|j: int, k: Seq<char>|
                0 <= j < NUM_SHARDS && #[trigger] cached_states(self.shards@[j]).contains_key(k)
                    && cached_states(self.shards@[j])[k].classified_type
                    != ClassificationType::Unclassified ==> exists|i: int|
                    0 <= i < r@.len() && #[trigger] r@[i].prefix@ == k,
            forall|a: int, b: int|
                0 <= a < r@.len() && 0 <= b < r@.len() && a != b ==> #[trigger] r@[a].prefix@
                    != #[trigger] r@[b].prefix@,
    {
        let mut out: Vec<PrefixSnapshot> = Vec::new();
        let mut j: usize = 0;
        while j < self.shards.len()
            invariant
                j <= NUM_SHARDS,
                self.shards@.len() == NUM_SHARDS,
                forall|i: int|
                    #![trigger out@[i]]
                    0 <= i < out@.len() ==> exists|jj: int|
                        #![trigger self.shards@[jj]]
                        0 <= jj < NUM_SHARDS && cached_states(self.shards@[jj]).contains_key(
                            out@[i].prefix@,
                        ) && snapshot_of(
                            out@[i],
                            out@[i].prefix@,
                            cached_states(self.shards@[jj])[out@[i].prefix@],
                        ) && out@[i].classification != ClassificationType::Unclassified,
                forall|jj: int, k: Seq<char>|
                    0 <= jj < j && #[trigger] cached_states(self.shards@[jj]).contains_key(k)
                        && cached_states(self.shards@[jj])[k].classified_type
                        != ClassificationType::Unclassified ==> exists|i: int|
                        0 <= i < out@.len() && #[trigger] out@[i].prefix@ == k,
                self.placed(),
                forall|a: int| 0 <= a < out@.len() ==> shard_of(#[trigger] out@[a].prefix@) < j,
                forall|a: int, b: int|
                    0 <= a < out@.len() && 0 <= b < out@.len() && a != b ==> #[trigger] out@[a].prefix@
                        != #[trigger] out@[b].prefix@,
            decreases NUM_SHARDS - j,
        {
            let entries = cache_entries(&self.shards[j]);
            let ghost m = cached_states(self.shards@[j as int]);
            let ghost out_before = out@;
            let mut i: usize = 0;
            while i < entries.len()
                invariant
                    i <= entries@.len(),
                    j < NUM_SHARDS,
                    self.shards@.len() == NUM_SHARDS,
                    m == cached_states(self.shards@[j as int]),
                    forall|a: int|
                        0 <= a < entries@.len() ==> m.contains_key(#[trigger] entries@[a].0@)
                            && entries@[a].1@ == m[entries@[a].0@],
                    out_before.len() <= out@.len(),
                    forall|a: int| 0 <= a < out_before.len() ==> out@[a] == out_before[a],
                    forall|a: int|
                        #![trigger out@[a]]
                        0 <= a < out@.len() ==> exists|jj: int|
                            #![trigger self.shards@[jj]]
                            0 <= jj < NUM_SHARDS && cached_states(self.shards@[jj]).contains_key(
                                out@[a].prefix@,
                            ) && snapshot_of(
                                out@[a],
                                out@[a].prefix@,
                                cached_states(self.shards@[jj])[out@[a].prefix@],
                            ) && out@[a].classification != ClassificationType::Unclassified,
                    forall|a: int|
                        0 <= a < i && entries@[a].1@.classified_type
                            != ClassificationType::Unclassified ==> exists|b: int|
                            0 <= b < out@.len() && #[trigger] out@[b].prefix@ == entries@[a].0@,
                    self.placed(),
                    forall|a: int, b: int|
                        0 <= a < entries@.len() && 0 <= b < entries@.len() && a != b
                            ==> entries@[a].0@ != entries@[b].0@,
                    forall|a: int|
                        0 <= a < out_before.len() ==> shard_of(#[trigger] out@[a].prefix@) < j,
                    forall|a: int|
                        out_before.len() <= a < out@.len() ==> exists|b: int|
                            0 <= b < i && #[trigger] entries@[b].0@ == #[trigger] out@[a].prefix@,
                    forall|a: int, b: int|
                        0 <= a < out@.len() && 0 <= b < out@.len() && a != b ==> #[trigger] out@[a].prefix@
                            != #[trigger] out@[b].prefix@,
                decreases entries@.len() - i,
            {
                let (k, st) = (&entries[i].0, &entries[i].1);
                if st.classified_type != ClassificationType::Unclassified {
                    let snap = PrefixSnapshot {
                        prefix: k.clone(),
                        classification: st.classified_type,
                        asn: st.last_origin_asn,
                        last_update_ts: st.last_update_ts,
                        total_events: bucket_messages(&st.buckets),
                    };
                    let ghost before = out@;
                    out.push(snap);
                    proof {
                        assert(out@[out@.len() - 1].prefix@ == entries@[i as int].0@);
                        assert forall|a: int|
                            #![trigger out@[a]]
                            0 <= a < out@.len() implies exists|jj: int|
                            #![trigger self.shards@[jj]]
                            0 <= jj < NUM_SHARDS && cached_states(self.shards@[jj]).contains_key(
                                out@[a].prefix@,
                            ) && snapshot_of(
                                out@[a],
                                out@[a].prefix@,
                                cached_states(self.shards@[jj])[out@[a].prefix@],
                            ) && out@[a].classification != ClassificationType::Unclassified by {
                            if a == out@.len() - 1 {
                                assert(self.shards@[j as int] == self.shards@[j as int]);
                            } else {
                                assert(out@[a] == before[a]);
                            }
                        }
                        assert forall|a: int|
                            0 <= a < i + 1 && entries@[a].1@.classified_type
                                != ClassificationType::Unclassified implies exists|b: int|
                            0 <= b < out@.len() && #[trigger] out@[b].prefix@ == entries@[a].0@ by {
                            if a == i {
                                assert(out@[out@.len() - 1].prefix@ == entries@[a].0@);
                            } else {
                                let b = choose|b: int|
                                    0 <= b < before.len() && #[trigger] before[b].prefix@
                                        == entries@[a].0@;
                                assert(out@[b] == before[b]);
                            }
                        }
                    }
                }
                i = i + 1;
            }
            proof {
                assert forall|jj: int, k: Seq<char>|
                    0 <= jj < j + 1 && #[trigger] cached_states(self.shards@[jj]).contains_key(k)
                        && cached_states(self.shards@[jj])[k].classified_type
                        != ClassificationType::Unclassified implies exists|b: int|
                    0 <= b < out@.len() && #[trigger] out@[b].prefix@ == k by {
                    if jj == j {
                        let a = choose|a: int| 0 <= a < entries@.len() && #[trigger] entries@[a].0@ == k;
                        assert(m.contains_key(entries@[a].0@));
                    } else {
                        let b = choose|b: int|
                            0 <= b < out_before.len() && #[trigger] out_before[b].prefix@ == k;
                        assert(out@[b] == out_before[b]);
                    }
                }
            }
            j = j + 1;
        }
        out
    }
}

} // verus!
