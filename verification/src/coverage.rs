//! IPv4 address coverage of a set of prefixes, once overlapping and adjacent prefixes
//! are merged.
use vstd::prelude::*;
use crate::stats::wrap64;
use crate::prefix::{IpPrefix, ipnet_parse, parse_prefix};

verus! {

/// The prefixes (address, length) that `ipnet::Ipv4Net::aggregate` merges `nets` into.
pub uninterp spec fn v4_aggregate(nets: Seq<(u32, u8)>) -> Seq<(u32, u8)>;

/// Merges IPv4 prefixes with `ipnet::Ipv4Net::aggregate`. Claimed: the result is the
/// one named `v4_aggregate` for these prefixes, and each of its lengths is at most 32
/// (an `Ipv4Net` never holds a longer one).
#[verifier::external_body]
fn aggregate_v4(nets: &Vec<(u32, u8)>) -> (r: Vec<(u32, u8)>)
    requires
        forall|i: int| 0 <= i < nets@.len() ==> #[trigger] nets@[i].1 <= 32,
    ensures
        r@ == v4_aggregate(nets@),
        forall|i: int| 0 <= i < r@.len() ==> #[trigger] r@[i].1 <= 32,
{
    let list: Vec<ipnet::Ipv4Net> = nets
        .iter()
        .map(|&(a, l)| ipnet::Ipv4Net::new_assert(a.into(), l))
        .collect();
    ipnet::Ipv4Net::aggregate(&list).iter().map(|n| (u32::from(n.addr()), n.prefix_len())).collect()
}

/// The number of addresses in an IPv4 prefix of length `len` (at most 32).
pub open spec fn block_size(len: u8) -> int {
    (1u64 << (32 - len) as u64) as int
}

/// The addresses of the prefixes `nets` counted one prefix after another, wrapping at
/// 64 bits.
pub open spec fn addresses_of(nets: Seq<(u32, u8)>) -> int
    decreases nets.len(),
{
    if nets.len() == 0 {
        0
    } else {
        wrap64(addresses_of(nets.drop_last()) + block_size(nets.last().1))
    }
}

/// The IPv4 addresses covered by `nets`: the sizes of the merged prefixes added up.
pub fn covered_v4(nets: &Vec<(u32, u8)>) -> (r: u64)
    requires
        forall|i: int| 0 <= i < nets@.len() ==> #[trigger] nets@[i].1 <= 32,
    ensures
        r == addresses_of(v4_aggregate(nets@)),
{
    let merged = aggregate_v4(nets);
    let mut total: u64 = 0;
    let mut i: usize = 0;
    while i < merged.len()
        invariant
            i <= merged@.len(),
            merged@ == v4_aggregate(nets@),
            forall|k: int| 0 <= k < merged@.len() ==> #[trigger] merged@[k].1 <= 32,
            total == addresses_of(merged@.take(i as int)),
        decreases merged@.len() - i,
    {
        let len = merged[i].1;
        let size: u64 = 1u64 << (32 - len) as u64;
        assert(merged@.take(i + 1).drop_last() =~= merged@.take(i as int));
        proof {
            vstd::arithmetic::div_mod::lemma_small_mod(total as nat, 0x1_0000_0000_0000_0000);
            vstd::arithmetic::div_mod::lemma_small_mod(size as nat, 0x1_0000_0000_0000_0000);
            vstd::arithmetic::div_mod::lemma_add_mod_noop(total as int, size as int, 0x1_0000_0000_0000_0000);
        }
        total = total.wrapping_add(size);
        i = i + 1;
    }
    assert(merged@.take(i as int) =~= merged@);
    total
}

/// The RPKI standing a stored prefix is counted under, from its origin and RPKI code: 1
/// valid and 2 invalid for a known origin, 3 not found otherwise (no origin, no verdict,
/// or no ROA).
pub open spec fn rpki_standing(origin: u32, code: i32) -> int {
    if origin != 0 && code == 1 {
        1
    } else if origin != 0 && code == 2 {
        2
    } else {
        3
    }
}

/// The IPv4 prefixes among `rows` (prefix text, origin) whose standing, with the RPKI
/// codes `codes`, is `standing`.
pub open spec fn v4_with(rows: Seq<(Seq<char>, u32)>, codes: Seq<i32>, standing: int) -> Seq<(u32, u8)>
    decreases rows.len(),
{
    if rows.len() == 0 {
        seq![]
    } else {
        let prev = v4_with(rows.drop_last(), codes.drop_last(), standing);
        match ipnet_parse(rows.last().0) {
            Some(IpPrefix::V4 { addr, len }) => if rpki_standing(rows.last().1, codes.last())
                == standing {
                prev.push((addr, len))
            } else {
                prev
            },
            _ => prev,
        }
    }
}

/// The number of IPv6 prefixes among `rows` whose standing is `standing`.
pub open spec fn v6_with(rows: Seq<(Seq<char>, u32)>, codes: Seq<i32>, standing: int) -> nat
    decreases rows.len(),
{
    if rows.len() == 0 {
        0
    } else {
        let prev = v6_with(rows.drop_last(), codes.drop_last(), standing);
        match ipnet_parse(rows.last().0) {
            Some(IpPrefix::V6 { .. }) => if rpki_standing(rows.last().1, codes.last())
                == standing {
                prev + 1
            } else {
                prev
            },
            _ => prev,
        }
    }
}

/// RPKI coverage of the stored prefixes: IPv4 addresses (merged prefixes) and IPv6
/// prefixes, valid, invalid and not found.
pub struct RpkiCoverage {
    pub valid_v4: u64,
    pub invalid_v4: u64,
    pub not_found_v4: u64,
    pub valid_v6: u64,
    pub invalid_v6: u64,
    pub not_found_v6: u64,
}

/// The views of prefix rows.
pub open spec fn rows_view(rows: Seq<(String, u32)>) -> Seq<(Seq<char>, u32)> {
    rows.map_values(|r: (String, u32)| (r.0@, r.1))
}

/// The RPKI coverage of the stored prefixes `rows` (prefix text, origin) whose RPKI
/// codes are `codes`: the addresses of each standing's merged IPv4 prefixes, and the
/// number of each standing's IPv6 prefixes; text that is no prefix is not counted.
pub fn rpki_coverage_of(rows: &Vec<(String, u32)>, codes: &Vec<i32>) -> (r: RpkiCoverage)
    requires
        codes@.len() == rows@.len(),
    ensures
        r.valid_v4 == addresses_of(v4_aggregate(v4_with(rows_view(rows@), codes@, 1))),
        r.invalid_v4 == addresses_of(v4_aggregate(v4_with(rows_view(rows@), codes@, 2))),
        r.not_found_v4 == addresses_of(v4_aggregate(v4_with(rows_view(rows@), codes@, 3))),
        r.valid_v6 == v6_with(rows_view(rows@), codes@, 1),
        r.invalid_v6 == v6_with(rows_view(rows@), codes@, 2),
        r.not_found_v6 == v6_with(rows_view(rows@), codes@, 3),
{
    let ghost rv = rows_view(rows@);
    let mut valid: Vec<(u32, u8)> = Vec::new();
    let mut invalid: Vec<(u32, u8)> = Vec::new();
    let mut missing: Vec<(u32, u8)> = Vec::new();
    let mut valid_v6: u64 = 0;
    let mut invalid_v6: u64 = 0;
    let mut missing_v6: u64 = 0;
    let mut i: usize = 0;
    while i < rows.len()
        invariant
            i <= rows@.len(),
            codes@.len() == rows@.len(),
            rv == rows_view(rows@),
            valid@ == v4_with(rv.take(i as int), codes@.take(i as int), 1),
            invalid@ == v4_with(rv.take(i as int), codes@.take(i as int), 2),
            missing@ == v4_with(rv.take(i as int), codes@.take(i as int), 3),
            forall|k: int| 0 <= k < valid@.len() ==> #[trigger] valid@[k].1 <= 32,
            forall|k: int| 0 <= k < invalid@.len() ==> #[trigger] invalid@[k].1 <= 32,
            forall|k: int| 0 <= k < missing@.len() ==> #[trigger] missing@[k].1 <= 32,
            valid_v6 == v6_with(rv.take(i as int), codes@.take(i as int), 1),
            invalid_v6 == v6_with(rv.take(i as int), codes@.take(i as int), 2),
            missing_v6 == v6_with(rv.take(i as int), codes@.take(i as int), 3),
            valid_v6 <= i && invalid_v6 <= i && missing_v6 <= i,
        decreases rows@.len() - i,
    {
        assert(rv.take(i + 1).drop_last() =~= rv.take(i as int));
        assert(codes@.take(i + 1).drop_last() =~= codes@.take(i as int));
        assert(rv.take(i + 1).last() == (rows@[i as int].0@, rows@[i as int].1));
        let origin = rows[i].1;
        let code = codes[i];
        let standing: u8 = if origin != 0 && code == 1 {
            1
        } else if origin != 0 && code == 2 {
            2
        } else {
            3
        };
        match parse_prefix(rows[i].0.as_str()) {
            Some(IpPrefix::V4 { addr, len }) => {
                if standing == 1 {
                    valid.push((addr, len));
                } else if standing == 2 {
                    invalid.push((addr, len));
                } else {
                    missing.push((addr, len));
                }
            },
            Some(IpPrefix::V6 { .. }) => {
                if standing == 1 {
                    valid_v6 = valid_v6 + 1;
                } else if standing == 2 {
                    invalid_v6 = invalid_v6 + 1;
                } else {
                    missing_v6 = missing_v6 + 1;
                }
            },
            None => {},
        }
        i = i + 1;
    }
    assert(rv.take(i as int) =~= rv);
    assert(codes@.take(i as int) =~= codes@);
    RpkiCoverage {
        valid_v4: covered_v4(&valid),
        invalid_v4: covered_v4(&invalid),
        not_found_v4: covered_v4(&missing),
        valid_v6,
        invalid_v6,
        not_found_v6: missing_v6,
    }
}

/// The views of groups of IPv4 prefixes.
pub open spec fn groups_nets(groups: Seq<(String, Vec<(u32, u8)>)>) -> Seq<Seq<(u32, u8)>> {
    groups.map_values(|g: (String, Vec<(u32, u8)>)| g.1@)
}

/// Every length in every group fits IPv4.
pub open spec fn groups_fit(groups: Seq<Seq<(u32, u8)>>) -> bool {
    forall|g: int, k: int|
        0 <= g < groups.len() && 0 <= k < groups[g].len() ==> #[trigger] groups[g][k].1 <= 32
}

/// The group covering the most IPv4 addresses (merged), the first such when several tie,
/// with its count; none when no group covers any address.
pub fn largest_coverage(groups: &Vec<(String, Vec<(u32, u8)>)>) -> (r: Option<(usize, u64)>)
    requires
        groups_fit(groups_nets(groups@)),
    ensures
        r is None ==> forall|g: int|
            0 <= g < groups@.len() ==> addresses_of(v4_aggregate(#[trigger] groups_nets(groups@)[g])) == 0,
        r matches Some((k, n)) ==> {
            &&& k < groups@.len()
            &&& n == addresses_of(v4_aggregate(groups_nets(groups@)[k as int]))
            &&& n > 0
            &&& forall|g: int|
                0 <= g < groups@.len() ==> addresses_of(v4_aggregate(#[trigger] groups_nets(groups@)[g])) <= n
            &&& forall|g: int|
                0 <= g < k ==> addresses_of(v4_aggregate(#[trigger] groups_nets(groups@)[g])) < n
        },
{
    let ghost gv = groups_nets(groups@);
    let mut best: Option<(usize, u64)> = None;
    let mut best_n: u64 = 0;
    let mut i: usize = 0;
    while i < groups.len()
        invariant
            i <= groups@.len(),
            gv == groups_nets(groups@),
            groups_fit(gv),
            best is None ==> best_n == 0,
            best matches Some((k, n)) ==> k < i && n == best_n && n == addresses_of(v4_aggregate(gv[k as int]))
                && n > 0 && forall|g: int| 0 <= g < k ==> addresses_of(v4_aggregate(#[trigger] gv[g])) < n,
            forall|g: int| 0 <= g < i ==> addresses_of(v4_aggregate(#[trigger] gv[g])) <= best_n,
        decreases groups@.len() - i,
    {
        assert(gv[i as int] == groups@[i as int].1@);
        let n = covered_v4(&groups[i].1);
        if n > best_n {
            best = Some((i, n));
            best_n = n;
        }
        i = i + 1;
    }
    best
}

} // verus!
