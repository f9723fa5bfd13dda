//! Rolling windows of recent classified events, grouped by location, origin AS, country
//! and organisation.
use vstd::prelude::*;
use crate::types::ClassificationType;
use crate::prefix_state::{opt_view, copy_opt};

verus! {

/// One classified event as the windows keep it. The coordinates are the bit patterns of
/// the `f32` latitude and longitude.
pub struct WindowEntry {
    pub ts: i64,
    pub prefix: String,
    pub city: Option<String>,
    pub country: Option<String>,
    pub asn: u32,
    pub as_name: String,
    pub org_name: Option<String>,
    pub lat_bits: u32,
    pub lon_bits: u32,
}

/// A window entry with text as characters.
pub struct EntryView {
    pub ts: i64,
    pub prefix: Seq<char>,
    pub city: Option<Seq<char>>,
    pub country: Option<Seq<char>>,
    pub asn: u32,
    pub as_name: Seq<char>,
    pub org_name: Option<Seq<char>>,
    pub lat_bits: u32,
    pub lon_bits: u32,
}

impl View for WindowEntry {
    type V = EntryView;

    open spec fn view(&self) -> EntryView {
        EntryView {
            ts: self.ts,
            prefix: self.prefix@,
            city: opt_view(self.city),
            country: opt_view(self.country),
            asn: self.asn,
            as_name: self.as_name@,
            org_name: opt_view(self.org_name),
            lat_bits: self.lat_bits,
            lon_bits: self.lon_bits,
        }
    }
}

impl WindowEntry {
    /// A copy with the same view.
    pub fn copy(&self) -> (r: Self)
        ensures
            r@ == self@,
    {
        WindowEntry {
            ts: self.ts,
            prefix: self.prefix.clone(),
            city: copy_opt(&self.city),
            country: copy_opt(&self.country),
            asn: self.asn,
            as_name: self.as_name.clone(),
            org_name: copy_opt(&self.org_name),
            lat_bits: self.lat_bits,
            lon_bits: self.lon_bits,
        }
    }
}

/// The group an entry is filed under: a location cell (tenths of a degree), an origin
/// AS, a country or an organisation, each with the event's classification.
pub enum WindowKey {
    Location { lat_q: i32, lon_q: i32, class: ClassificationType },
    Asn { asn: u32, class: ClassificationType },
    Country { country: String, class: ClassificationType },
    Organization { org: String, class: ClassificationType },
}

/// A group key with text as characters.
pub enum KeyView {
    Location { lat_q: i32, lon_q: i32, class: ClassificationType },
    Asn { asn: u32, class: ClassificationType },
    Country { country: Seq<char>, class: ClassificationType },
    Organization { org: Seq<char>, class: ClassificationType },
}

impl View for WindowKey {
    type V = KeyView;

    open spec fn view(&self) -> KeyView {
        match self {
            WindowKey::Location { lat_q, lon_q, class } => KeyView::Location {
                lat_q: *lat_q,
                lon_q: *lon_q,
                class: *class,
            },
            WindowKey::Asn { asn, class } => KeyView::Asn { asn: *asn, class: *class },
            WindowKey::Country { country, class } => KeyView::Country {
                country: country@,
                class: *class,
            },
            WindowKey::Organization { org, class } => KeyView::Organization {
                org: org@,
                class: *class,
            },
        }
    }
}

/// Whether two keys name the same group.
pub fn same_key(a: &WindowKey, b: &WindowKey) -> (r: bool)
    ensures
        r == (a@ == b@),
{
    match (a, b) {
        (
            WindowKey::Location { lat_q: x1, lon_q: y1, class: c1 },
            WindowKey::Location { lat_q: x2, lon_q: y2, class: c2 },
        ) => *x1 == *x2 && *y1 == *y2 && *c1 == *c2,
        (WindowKey::Asn { asn: a1, class: c1 }, WindowKey::Asn { asn: a2, class: c2 }) => *a1
            == *a2 && *c1 == *c2,
        (
            WindowKey::Country { country: s1, class: c1 },
            WindowKey::Country { country: s2, class: c2 },
        ) => s1.eq(s2) && *c1 == *c2,
        (
            WindowKey::Organization { org: s1, class: c1 },
            WindowKey::Organization { org: s2, class: c2 },
        ) => s1.eq(s2) && *c1 == *c2,
        _ => false,
    }
}

/// A copy of a key.
pub fn copy_key(k: &WindowKey) -> (r: WindowKey)
    ensures
        r@ == k@,
{
    match k {
        WindowKey::Location { lat_q, lon_q, class } => WindowKey::Location {
            lat_q: *lat_q,
            lon_q: *lon_q,
            class: *class,
        },
        WindowKey::Asn { asn, class } => WindowKey::Asn { asn: *asn, class: *class },
        WindowKey::Country { country, class } => WindowKey::Country {
            country: country.clone(),
            class: *class,
        },
        WindowKey::Organization { org, class } => WindowKey::Organization {
            org: org.clone(),
            class: *class,
        },
    }
}

/// Groups of entries with text as characters, in filing order.
pub type GroupsView = Seq<(KeyView, Seq<EntryView>)>;

/// The view of a list of entries.
pub open spec fn entries_view(es: Seq<WindowEntry>) -> Seq<EntryView> {
    es.map_values(|e: WindowEntry| e@)
}

/// The view of a list of groups.
pub open spec fn groups_view(gs: Seq<(WindowKey, Vec<WindowEntry>)>) -> GroupsView {
    gs.map_values(|g: (WindowKey, Vec<WindowEntry>)| (g.0@, entries_view(g.1@)))
}

/// No two groups share a key.
pub open spec fn keys_distinct(gs: GroupsView) -> bool {
    forall|i: int, j: int| 0 <= i < gs.len() && 0 <= j < gs.len() && i != j ==> gs[i].0 != gs[j].0
}

/// There is a group under key `k`.
pub open spec fn has_group(gs: GroupsView, k: KeyView) -> bool {
    exists|i: int| 0 <= i < gs.len() && #[trigger] gs[i].0 == k
}

/// The position of the group under key `k`.
pub open spec fn group_pos(gs: GroupsView, k: KeyView) -> int {
    choose|i: int| 0 <= i < gs.len() && #[trigger] gs[i].0 == k
}

/// The groups with `e` appended to the group under `k`, which is created (last) when
/// there is none.
pub open spec fn file_entry(gs: GroupsView, k: KeyView, e: EntryView) -> GroupsView {
    if has_group(gs, k) {
        let i = group_pos(gs, k);
        gs.update(i, (k, gs[i].1.push(e)))
    } else {
        gs.push((k, seq![e]))
    }
}

/// An entry of second `cutoff` or later.
pub open spec fn entry_recent(cutoff: i64) -> spec_fn(EntryView) -> bool {
    |e: EntryView| e.ts >= cutoff
}

/// A group with its entries before `cutoff` dropped.
pub open spec fn group_recent(cutoff: i64) -> spec_fn((KeyView, Seq<EntryView>)) -> (
    KeyView,
    Seq<EntryView>,
) {
    |g: (KeyView, Seq<EntryView>)| (g.0, g.1.filter(entry_recent(cutoff)))
}

/// A group that holds some entry.
pub open spec fn group_nonempty() -> spec_fn((KeyView, Seq<EntryView>)) -> bool {
    |g: (KeyView, Seq<EntryView>)| g.1.len() > 0
}

/// The groups with the entries before `cutoff` dropped, and the groups left empty
/// dropped; the order is kept.
pub open spec fn pruned(gs: GroupsView, cutoff: i64) -> GroupsView {
    gs.map_values(group_recent(cutoff)).filter(group_nonempty())
}

/// Files `e` under `key` (see [`file_entry`]).
pub fn add_to_group(groups: &mut Vec<(WindowKey, Vec<WindowEntry>)>, key: WindowKey, e: WindowEntry)
    requires
        keys_distinct(groups_view(old(groups)@)),
    ensures
        keys_distinct(groups_view(final(groups)@)),
        groups_view(final(groups)@) == file_entry(groups_view(old(groups)@), key@, e@),
{
    let ghost gv = groups_view(groups@);
    let mut i: usize = 0;
    while i < groups.len()
        invariant
            i <= groups@.len(),
            groups_view(groups@) == gv,
            gv == groups_view(old(groups)@),
            keys_distinct(gv),
            forall|j: int| 0 <= j < i ==> gv[j].0 != key@,
        decreases groups@.len() - i,
    {
        if same_key(&groups[i].0, &key) {
            let (k, mut es) = groups.remove(i);
            let ghost ev = entries_view(es@);
            es.push(e);
            assert(entries_view(es@) =~= ev.push(e@));
            groups.insert(i, (k, es));
            proof {
                assert(gv[i as int].0 == key@);
                assert(has_group(gv, key@));
                let p = group_pos(gv, key@);
                assert(p == i) by {
                    if p != i {
                        assert(gv[p].0 == gv[i as int].0);
                    }
                }
                assert(groups_view(groups@) =~= gv.update(i as int, (key@, gv[i as int].1.push(e@))));
                assert(file_entry(gv, key@, e@) == gv.update(i as int, (key@, gv[i as int].1.push(e@))));
                assert forall|a: int, b: int|
                    0 <= a < groups@.len() && 0 <= b < groups@.len() && a != b implies groups_view(
                    groups@,
                )[a].0 != groups_view(groups@)[b].0 by {
                    assert(groups_view(groups@)[a].0 == gv[a].0);
                    assert(groups_view(groups@)[b].0 == gv[b].0);
                }
            }
            return;
        }
        i = i + 1;
    }
    let ghost kv = key@;
    let ghost evv = e@;
    let mut es: Vec<WindowEntry> = Vec::new();
    es.push(e);
    groups.push((key, es));
    proof {
        assert(!has_group(gv, kv));
        assert(entries_view(es@) =~= seq![evv]);
        assert(groups_view(groups@) =~= gv.push((kv, seq![evv])));
    }
}

/// The entries of `es` of second `cutoff` or later, in order.
fn recent_entries(es: &Vec<WindowEntry>, cutoff: i64) -> (r: Vec<WindowEntry>)
    ensures
        entries_view(r@) == entries_view(es@).filter(entry_recent(cutoff)),
{
    let mut out: Vec<WindowEntry> = Vec::new();
    let mut i: usize = 0;
    while i < es.len()
        invariant
            i <= es@.len(),
            entries_view(out@) == entries_view(es@).take(i as int).filter(entry_recent(cutoff)),
        decreases es@.len() - i,
    {
        proof {
            reveal_with_fuel(Seq::filter, 1);
            assert(entries_view(es@).take(i + 1).drop_last() =~= entries_view(es@).take(i as int));
        }
        if es[i].ts >= cutoff {
            let ghost before = out@;
            out.push(es[i].copy());
            assert(entries_view(out@) =~= entries_view(before).push(es@[i as int]@));
        }
        i = i + 1;
    }
    assert(entries_view(es@).take(i as int) =~= entries_view(es@));
    out
}

/// Drops the entries before `cutoff` and the groups left empty (see [`pruned`]).
pub fn prune_groups(groups: &mut Vec<(WindowKey, Vec<WindowEntry>)>, cutoff: i64)
    requires
        keys_distinct(groups_view(old(groups)@)),
    ensures
        keys_distinct(groups_view(final(groups)@)),
        groups_view(final(groups)@) == pruned(groups_view(old(groups)@), cutoff),
{
    let ghost gv = groups_view(groups@);
    let mut out: Vec<(WindowKey, Vec<WindowEntry>)> = Vec::new();
    let mut i: usize = 0;
    while i < groups.len()
        invariant
            i <= groups@.len(),
            groups_view(groups@) == gv,
            keys_distinct(gv),
            groups_view(out@) == gv.take(i as int).map_values(group_recent(cutoff)).filter(
                group_nonempty(),
            ),
            keys_distinct(groups_view(out@)),
            forall|j: int|
                #![trigger groups_view(out@)[j]]
                0 <= j < out@.len() ==> exists|k: int|
                    0 <= k < i && #[trigger] gv[k].0 == groups_view(out@)[j].0,
        decreases groups@.len() - i,
    {
        let kept = recent_entries(&groups[i].1, cutoff);
        let ghost g = gv[i as int];
        proof {
            let m1 = gv.take(i as int).map_values(group_recent(cutoff));
            assert(gv.take(i + 1).map_values(group_recent(cutoff)) =~= m1.push(
                group_recent(cutoff)(g),
            ));
            m1.lemma_filter_push(group_recent(cutoff)(g), group_nonempty());
            assert(entries_view(kept@).len() == kept@.len());
        }
        if kept.len() > 0 {
            let ghost before = out@;
            proof {
                assert forall|j: int| 0 <= j < out@.len() implies groups_view(out@)[j].0 != g.0 by {
                    let k = choose|k: int| 0 <= k < i && #[trigger] gv[k].0 == groups_view(out@)[j].0;
                    assert(k != i);
                }
            }
            out.push((copy_key(&groups[i].0), kept));
            proof {
                assert(groups_view(out@) =~= groups_view(before).push(group_recent(cutoff)(g)));
                assert forall|j: int| #![trigger groups_view(out@)[j]] 0 <= j < out@.len() implies exists|k: int|
                    0 <= k < i + 1 && #[trigger] gv[k].0 == groups_view(out@)[j].0 by {
                    if j == out@.len() - 1 {
                        assert(gv[i as int].0 == groups_view(out@)[j].0);
                    } else {
                        let k = choose|k: int|
                            0 <= k < i && #[trigger] gv[k].0 == groups_view(before)[j].0;
                        assert(gv[k].0 == groups_view(out@)[j].0);
                    }
                }
            }
        }
        i = i + 1;
    }
    assert(gv.take(i as int) =~= gv);
    *groups = out;
}

/// Recent classified events grouped four ways.
pub struct RollingWindows {
    pub by_location: Vec<(WindowKey, Vec<WindowEntry>)>,
    pub by_asn: Vec<(WindowKey, Vec<WindowEntry>)>,
    pub by_country: Vec<(WindowKey, Vec<WindowEntry>)>,
    pub by_organization: Vec<(WindowKey, Vec<WindowEntry>)>,
}

impl RollingWindows {
    /// No grouping has a key twice.
    pub open spec fn wf(&self) -> bool {
        &&& keys_distinct(groups_view(self.by_location@))
        &&& keys_distinct(groups_view(self.by_asn@))
        &&& keys_distinct(groups_view(self.by_country@))
        &&& keys_distinct(groups_view(self.by_organization@))
    }

    /// Empty windows.
    pub fn new() -> (r: Self)
        ensures
            r.wf(),
            r.by_location@.len() == 0 && r.by_asn@.len() == 0,
            r.by_country@.len() == 0 && r.by_organization@.len() == 0,
    {
        RollingWindows {
            by_location: Vec::new(),
            by_asn: Vec::new(),
            by_country: Vec::new(),
            by_organization: Vec::new(),
        }
    }

    /// Files one classified event: under its location cell (`lat_q`, `lon_q`: the
    /// coordinates in tenths of a degree, truncated) and class, under its origin AS and
    /// class, under its country and class when it has a non-empty country, and under its
    /// organisation and class when it has a non-empty organisation name.
    #[allow(clippy::too_many_arguments)]
    pub fn add_event(
        &mut self,
        lat_q: i32,
        lon_q: i32,
        lat_bits: u32,
        lon_bits: u32,
        asn: u32,
        as_name: String,
        org_name: Option<String>,
        country_opt: Option<String>,
        city_opt: Option<String>,
        class: ClassificationType,
        now: i64,
        prefix: String,
    )
        requires
            old(self).wf(),
        ensures
            final(self).wf(),
            ({
                let e = EntryView {
                    ts: now,
                    prefix: prefix@,
                    city: opt_view(city_opt),
                    country: opt_view(country_opt),
                    asn,
                    as_name: as_name@,
                    org_name: opt_view(org_name),
                    lat_bits,
                    lon_bits,
                };
                &&& groups_view(final(self).by_location@) == file_entry(
                    groups_view(old(self).by_location@),
                    KeyView::Location { lat_q, lon_q, class },
                    e,
                )
                &&& groups_view(final(self).by_asn@) == file_entry(
                    groups_view(old(self).by_asn@),
                    KeyView::Asn { asn, class },
                    e,
                )
                &&& groups_view(final(self).by_country@) == match country_opt {
                    Some(c) if c@.len() > 0 => file_entry(
                        groups_view(old(self).by_country@),
                        KeyView::Country { country: c@, class },
                        e,
                    ),
                    _ => groups_view(old(self).by_country@),
                }
                &&& groups_view(final(self).by_organization@) == match org_name {
                    Some(o) if o@.len() > 0 => file_entry(
                        groups_view(old(self).by_organization@),
                        KeyView::Organization { org: o@, class },
                        e,
                    ),
                    _ => groups_view(old(self).by_organization@),
                }
            }),
    {
        let entry = WindowEntry {
            ts: now,
            prefix,
            city: city_opt,
            country: copy_opt(&country_opt),
            asn,
            as_name,
            org_name: copy_opt(&org_name),
            lat_bits,
            lon_bits,
        };
        add_to_group(&mut self.by_location, WindowKey::Location { lat_q, lon_q, class }, entry.copy());
        add_to_group(&mut self.by_asn, WindowKey::Asn { asn, class }, entry.copy());
        if let Some(country) = country_opt {
            if country.unicode_len() > 0 {
                add_to_group(&mut self.by_country, WindowKey::Country { country, class }, entry.copy());
            }
        }
        if let Some(org) = org_name {
            if org.unicode_len() > 0 {
                add_to_group(&mut self.by_organization, WindowKey::Organization { org, class }, entry);
            }
        }
    }

    /// Drops, in every grouping, the entries older than `window` seconds before `now`
    /// and the groups left empty (see [`pruned`]).
    pub fn cleanup(&mut self, now: i64, window: i64)
        requires
            old(self).wf(),
            i64::MIN <= now - window <= i64::MAX,
        ensures
            final(self).wf(),
            groups_view(final(self).by_location@) == pruned(
                groups_view(old(self).by_location@),
                (now - window) as i64,
            ),
            groups_view(final(self).by_asn@) == pruned(
                groups_view(old(self).by_asn@),
                (now - window) as i64,
            ),
            groups_view(final(self).by_country@) == pruned(
                groups_view(old(self).by_country@),
                (now - window) as i64,
            ),
            groups_view(final(self).by_organization@) == pruned(
                groups_view(old(self).by_organization@),
                (now - window) as i64,
            ),
    {
        let cutoff = now - window;
        prune_groups(&mut self.by_location, cutoff);
        prune_groups(&mut self.by_asn, cutoff);
        prune_groups(&mut self.by_country, cutoff);
        prune_groups(&mut self.by_organization, cutoff);
    }
}

impl Default for RollingWindows {
    fn default() -> (r: Self)
        ensures
            r.wf(),
            r.by_location@.len() == 0 && r.by_asn@.len() == 0,
            r.by_country@.len() == 0 && r.by_organization@.len() == 0,
    {
        RollingWindows::new()
    }
}

/// After pruning at `cutoff`, every group holds some entry and every entry is of second
/// `cutoff` or later; the entries of a group under a key are exactly its old entries of
/// second `cutoff` or later, in order.
pub proof fn law_pruned_groups_recent(gs: GroupsView, cutoff: i64)
    ensures
        forall|i: int|
            0 <= i < pruned(gs, cutoff).len() ==> #[trigger] pruned(gs, cutoff)[i].1.len() > 0,
        forall|i: int, j: int|
            0 <= i < pruned(gs, cutoff).len() && 0 <= j < pruned(gs, cutoff)[i].1.len()
                ==> #[trigger] pruned(gs, cutoff)[i].1[j].ts >= cutoff,
        forall|i: int|
            0 <= i < gs.len() && (#[trigger] gs[i]).1.filter(entry_recent(cutoff)).len() > 0
                ==> pruned(gs, cutoff).contains((gs[i].0, gs[i].1.filter(entry_recent(cutoff)))),
{
    let m = gs.map_values(group_recent(cutoff));
    let p = m.filter(group_nonempty());
    assert forall|i: int| 0 <= i < p.len() implies #[trigger] p[i].1.len() > 0 by {
        m.lemma_filter_pred(group_nonempty(), i);
    }
    assert forall|i: int, j: int| 0 <= i < p.len() && 0 <= j < p[i].1.len() implies #[trigger] p[i].1[j].ts
        >= cutoff by {
        m.lemma_filter_contains_rev(group_nonempty(), p[i]);
        assert(p.contains(p[i]));
        let k = choose|k: int| 0 <= k < m.len() && m[k] == p[i];
        let es = gs[k].1;
        es.lemma_filter_pred(entry_recent(cutoff), j);
    }
    assert forall|i: int|
        0 <= i < gs.len() && (#[trigger] gs[i]).1.filter(entry_recent(cutoff)).len() > 0 implies p.contains(
        (gs[i].0, gs[i].1.filter(entry_recent(cutoff))),
    ) by {
        assert(m[i] == (gs[i].0, gs[i].1.filter(entry_recent(cutoff))));
        m.lemma_filter_contains(group_nonempty(), i);
    }
}

/// After filing `e` under `k` in groups with distinct keys, the group under `k` exists
/// and ends with `e`, and the keys stay distinct.
pub proof fn law_filed_entry_last(gs: GroupsView, k: KeyView, e: EntryView)
    requires
        keys_distinct(gs),
    ensures
        has_group(file_entry(gs, k, e), k),
        ({
            let f = file_entry(gs, k, e);
            let g = f[group_pos(f, k)].1;
            g.len() > 0 && g.last() == e
        }),
{
    let f = file_entry(gs, k, e);
    if has_group(gs, k) {
        let i = group_pos(gs, k);
        assert(f[i].0 == k);
        let p = group_pos(f, k);
        assert(p == i) by {
            if p != i {
                assert(gs[p].0 == f[p].0);
            }
        }
    } else {
        let n = gs.len() as int;
        assert(f[n].0 == k);
        let p = group_pos(f, k);
        assert(p == n) by {
            if p != n {
                assert(gs[p].0 == k);
            }
        }
    }
}

} // verus!
