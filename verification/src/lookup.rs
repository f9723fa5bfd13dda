//! What the `bgpkit_commons` data sets say of prefixes and AS numbers, and the rules that
//! turn those answers into ranks, names and sibling verdicts.
use vstd::prelude::*;
use bgpkit_commons::BgpkitCommons;
use bgpkit_commons::rpki::RpkiValidation;
use crate::decide::AsnRank;
use crate::prefix::{ipnet_parse};
use crate::prefix_state::opt_view;
use crate::text::{chars_of, contains_run, vec_contains_run};

verus! {

/// The data sets of `bgpkit_commons`: bogons, RPKI, AS information.
#[verifier::external_type_specification]
#[verifier::external_body]
pub struct ExBgpkitCommons(BgpkitCommons);

/// The AS information the classifier reads: the AS name, its organisation's name, the
/// IPv4 and IPv6 hegemony scores and the share of global users as `f64` bit patterns,
/// and the user count.
pub struct AsInfoFacts {
    pub name: String,
    pub org_name: Option<String>,
    pub hegemony_bits: Option<(u64, u64)>,
    pub population: Option<(u64, i64)>,
}

/// An RPKI verdict for an origin and prefix.
#[derive(Clone, Copy, PartialEq, Eq, Structural)]
pub enum RpkiStatus {
    Valid,
    Invalid,
    Unknown,
}

/// Asks `BgpkitCommons::bogons_match` whether `prefix` is a bogon; `None` when the call
/// fails (no bogon list loaded). Nothing is claimed of the answer: it depends on the
/// bogon list that was downloaded.
#[verifier::external_body]
fn bgpkit_bogon(b: &BgpkitCommons, prefix: &str) -> (r: Option<bool>) {
    b.bogons_match(prefix).ok()
}

/// Asks `BgpkitCommons::rpki_validate` for the verdict on `asn` announcing `prefix`;
/// `None` when the call fails. Claimed: the call succeeds only for text that `ipnet`
/// parses as a prefix (the crate parses the prefix before validating). The verdict
/// itself depends on the downloaded RPKI data and is not claimed.
#[verifier::external_body]
fn bgpkit_rpki(b: &BgpkitCommons, asn: u32, prefix: &str) -> (r: Option<RpkiStatus>)
    ensures
        r is Some ==> ipnet_parse(prefix@) is Some,
{
    match b.rpki_validate(asn, prefix) {
        Ok(RpkiValidation::Valid) => Some(RpkiStatus::Valid),
        Ok(RpkiValidation::Invalid) => Some(RpkiStatus::Invalid),
        Ok(RpkiValidation::Unknown) => Some(RpkiStatus::Unknown),
        Err(_) => None,
    }
}

/// Asks `BgpkitCommons::asinfo_are_siblings` whether two AS numbers belong to one
/// organisation; `None` when the call fails. Nothing is claimed of the answer.
#[verifier::external_body]
fn bgpkit_siblings(b: &BgpkitCommons, asn1: u32, asn2: u32) -> (r: Option<bool>) {
    b.asinfo_are_siblings(asn1, asn2).ok()
}

/// Reads the AS information of `asn` with `BgpkitCommons::asinfo_get`; `None` when the
/// call fails or knows no such AS. Nothing is claimed of the answer: it is the data
/// that was downloaded.
#[verifier::external_body]
fn bgpkit_asinfo(b: &BgpkitCommons, asn: u32) -> (r: Option<AsInfoFacts>) {
    match b.asinfo_get(asn) {
        Ok(Some(i)) => Some(AsInfoFacts {
            name: i.name,
            org_name: i.as2org.map(|o| o.org_name),
            hegemony_bits: i.hegemony.map(|h| (h.ipv4.to_bits(), h.ipv6.to_bits())),
            population: i.population.map(|p| (p.percent_global.to_bits(), p.user_count)),
        }),
        _ => None,
    }
}

/// Lower-cases `s` with `str::to_lowercase`, as its documentation describes (by the
/// Unicode `Lowercase` mapping).
pub uninterp spec fn lowercase_of(s: Seq<char>) -> Seq<char>;

/// Lower-cases `s` with `str::to_lowercase`. Claimed: the result is the one named
/// `lowercase_of` for these characters.
#[verifier::external_body]
fn lowercase(s: &str) -> (r: String)
    ensures
        r@ == lowercase_of(s@),
{
    s.to_lowercase()
}

/// The bit pattern of the `f64` 0.05, the hegemony score above which an AS is tier-1.
pub const TIER1_HEGEMONY_BITS: u64 = 0x3fa9_9999_9999_999a;

/// The bit pattern of the `f64` 0.01, the hegemony score or global user share above
/// which an AS is a large network.
pub const LARGE_SHARE_BITS: u64 = 0x3f84_7ae1_47ae_147b;

/// The `f64` with bit pattern `x` is greater than the positive finite `f64` with bit
/// pattern `thr`: `x` is a positive number (not NaN) whose bits exceed `thr`'s, which
/// for non-negative numbers orders them as their values.
pub open spec fn f64_bits_gt(x: u64, thr: u64) -> bool {
    x <= 0x7ff0_0000_0000_0000 && x > thr
}

/// Whether the `f64` with bit pattern `x` is greater than the one with pattern `thr`.
pub fn f64_bits_greater(x: u64, thr: u64) -> (r: bool)
    ensures
        r == f64_bits_gt(x, thr),
{
    x <= 0x7ff0_0000_0000_0000 && x > thr
}

/// The transit networks known to be tier-1.
pub open spec fn tier1_listed(asn: u32) -> bool {
    asn == 174 || asn == 209 || asn == 701 || asn == 1239 || asn == 1299 || asn == 2828 || asn
        == 2914 || asn == 3257 || asn == 3320 || asn == 3356 || asn == 3549 || asn == 3561 || asn
        == 5511 || asn == 6453 || asn == 6461 || asn == 6762 || asn == 7018 || asn == 12956
}

/// The content and cloud networks known to be large.
pub open spec fn large_listed(asn: u32) -> bool {
    asn == 15169 || asn == 16509 || asn == 8075 || asn == 13335 || asn == 20940 || asn == 14618
        || asn == 32934 || asn == 16276
}

/// Some hegemony score of `info` exceeds the score with bit pattern `thr`.
pub open spec fn hegemony_over(info: Option<AsInfoFacts>, thr: u64) -> bool {
    match info {
        Some(i) => match i.hegemony_bits {
            Some((v4, v6)) => f64_bits_gt(v4, thr) || f64_bits_gt(v6, thr),
            None => false,
        },
        None => false,
    }
}

/// `info` shows more than 1% of the world's users, or more than ten million users.
pub open spec fn population_large(info: Option<AsInfoFacts>) -> bool {
    match info {
        Some(i) => match i.population {
            Some((share, users)) => f64_bits_gt(share, LARGE_SHARE_BITS) || users > 10_000_000,
            None => false,
        },
        None => false,
    }
}

/// The rank of `asn` given its AS information: tier-1 when a hegemony score exceeds 0.05
/// or it is listed as tier-1; large when its user population or a hegemony score passes
/// the large-network bar or it is listed as large.
pub open spec fn rank_of(asn: u32, info: Option<AsInfoFacts>) -> AsnRank {
    AsnRank {
        tier1: hegemony_over(info, TIER1_HEGEMONY_BITS) || tier1_listed(asn),
        large: population_large(info) || hegemony_over(info, LARGE_SHARE_BITS) || large_listed(
            asn,
        ),
    }
}

/// Whether some hegemony score of `info` exceeds the score with bit pattern `thr`.
fn hegemony_exceeds(info: &Option<AsInfoFacts>, thr: u64) -> (r: bool)
    ensures
        r == hegemony_over(*info, thr),
{
    match info {
        Some(i) => match i.hegemony_bits {
            Some((v4, v6)) => f64_bits_greater(v4, thr) || f64_bits_greater(v6, thr),
            None => false,
        },
        None => false,
    }
}

/// The rank of `asn` given its AS information (see [`rank_of`]).
pub fn rank_from_info(asn: u32, info: &Option<AsInfoFacts>) -> (r: AsnRank)
    ensures
        r == rank_of(asn, *info),
{
    let listed_tier1 = asn == 174 || asn == 209 || asn == 701 || asn == 1239 || asn == 1299
        || asn == 2828 || asn == 2914 || asn == 3257 || asn == 3320 || asn == 3356 || asn == 3549
        || asn == 3561 || asn == 5511 || asn == 6453 || asn == 6461 || asn == 6762 || asn == 7018
        || asn == 12956;
    let listed_large = asn == 15169 || asn == 16509 || asn == 8075 || asn == 13335 || asn
        == 20940 || asn == 14618 || asn == 32934 || asn == 16276;
    let populous = match info {
        Some(i) => match i.population {
            Some((share, users)) => f64_bits_greater(share, LARGE_SHARE_BITS) || users
                > 10_000_000,
            None => false,
        },
        None => false,
    };
    AsnRank {
        tier1: hegemony_exceeds(info, TIER1_HEGEMONY_BITS) || listed_tier1,
        large: populous || hegemony_exceeds(info, LARGE_SHARE_BITS) || listed_large,
    }
}

/// The name an AS goes by in `info`: its own name when it has one, else its
/// organisation's name.
pub open spec fn name_of_info(info: Option<AsInfoFacts>) -> Option<Seq<char>> {
    match info {
        Some(i) => if i.name@.len() > 0 {
            Some(i.name@)
        } else {
            opt_view(i.org_name)
        },
        None => None,
    }
}

/// The organisation name in `info`.
pub open spec fn org_of_info(info: Option<AsInfoFacts>) -> Option<Seq<char>> {
    match info {
        Some(i) => opt_view(i.org_name),
        None => None,
    }
}

/// The name an AS goes by in `info` (see [`name_of_info`]).
pub fn name_from_info(info: Option<AsInfoFacts>) -> (r: Option<String>)
    ensures
        opt_view(r) == name_of_info(info),
{
    match info {
        Some(i) => {
            if i.name.unicode_len() > 0 {
                Some(i.name)
            } else {
                i.org_name
            }
        },
        None => None,
    }
}

/// The organisation name in `info` (see [`org_of_info`]).
pub fn org_from_info(info: Option<AsInfoFacts>) -> (r: Option<String>)
    ensures
        opt_view(r) == org_of_info(info),
{
    match info {
        Some(i) => i.org_name,
        None => None,
    }
}

/// The words whose presence in both names marks two networks of one operator.
pub open spec fn sibling_words() -> Seq<Seq<char>> {
    seq!["china telecom"@, "chinanet"@, "google"@, "cloudflare"@, "amazon"@, "akamai"@]
}

/// Both lower-cased names hold one of the [`sibling_words`].
pub open spec fn names_share_word(n1: Seq<char>, n2: Seq<char>) -> bool {
    exists|k: int|
        0 <= k < sibling_words().len() && contains_run(n1, #[trigger] sibling_words()[k])
            && contains_run(n2, sibling_words()[k])
}

/// Two distinct AS numbers are likely siblings: the sibling lookup says so, or both have
/// the same organisation name, or both lower-cased names share a sibling word.
pub open spec fn siblings_by(
    said: Option<bool>,
    org1: Option<Seq<char>>,
    org2: Option<Seq<char>>,
    lower1: Option<Seq<char>>,
    lower2: Option<Seq<char>>,
) -> bool {
    ||| said == Some(true)
    ||| (org1 is Some && org2 is Some && org1 == org2)
    ||| (lower1 is Some && lower2 is Some && names_share_word(lower1->0, lower2->0))
}

/// Whether two lower-cased names share a sibling word (see [`names_share_word`]).
pub fn share_sibling_word(n1: &String, n2: &String) -> (r: bool)
    ensures
        r == names_share_word(n1@, n2@),
{
    let a = chars_of(n1.as_str());
    let b = chars_of(n2.as_str());
    let mut words: Vec<Vec<char>> = Vec::new();
    words.push(chars_of("china telecom"));
    words.push(chars_of("chinanet"));
    words.push(chars_of("google"));
    words.push(chars_of("cloudflare"));
    words.push(chars_of("amazon"));
    words.push(chars_of("akamai"));
    assert(words@.len() == sibling_words().len());
    let mut k: usize = 0;
    while k < words.len()
        invariant
            k <= words@.len(),
            words@.len() == sibling_words().len(),
            forall|j: int| 0 <= j < words@.len() ==> #[trigger] words@[j]@ == sibling_words()[j],
            a@ == n1@,
            b@ == n2@,
            forall|j: int|
                0 <= j < k ==> !(contains_run(n1@, #[trigger] sibling_words()[j]) && contains_run(
                    n2@,
                    sibling_words()[j],
                )),
        decreases words@.len() - k,
    {
        if vec_contains_run(&a, &words[k]) && vec_contains_run(&b, &words[k]) {
            assert(contains_run(n1@, sibling_words()[k as int]));
            return true;
        }
        k = k + 1;
    }
    false
}

/// Whether two distinct AS numbers are likely siblings (see [`siblings_by`]), from the
/// sibling lookup's answer, the organisation names and the lower-cased AS names.
pub fn siblings_from(
    said: Option<bool>,
    org1: &Option<String>,
    org2: &Option<String>,
    lower1: &Option<String>,
    lower2: &Option<String>,
) -> (r: bool)
    ensures
        r == siblings_by(said, opt_view(*org1), opt_view(*org2), opt_view(*lower1), opt_view(*lower2)),
{
    if said == Some(true) {
        return true;
    }
    if let (Some(o1), Some(o2)) = (org1, org2) {
        if o1.eq(o2) {
            return true;
        }
    }
    if let (Some(l1), Some(l2)) = (lower1, lower2) {
        return share_sibling_word(l1, l2);
    }
    false
}

/// The organisation an AS is counted under in the coverage statistics: its
/// organisation's name when it has one, else its own name when that is not empty, else
/// none (the caller names it by its number).
pub open spec fn org_label_of(info: Option<AsInfoFacts>) -> Option<Seq<char>> {
    match info {
        Some(i) => match i.org_name {
            Some(o) => Some(o@),
            None => if i.name@.len() > 0 {
                Some(i.name@)
            } else {
                None
            },
        },
        None => None,
    }
}

/// The organisation an AS is counted under (see [`org_label_of`]).
pub fn org_label_from_info(info: Option<AsInfoFacts>) -> (r: Option<String>)
    ensures
        opt_view(r) == org_label_of(info),
{
    match info {
        Some(i) => match i.org_name {
            Some(o) => Some(o),
            None => {
                if i.name.unicode_len() > 0 {
                    Some(i.name)
                } else {
                    None
                }
            },
        },
        None => None,
    }
}

/// The RPKI code the classifier reports: 1 valid, 2 invalid, 3 unknown, 0 no verdict.
pub open spec fn rpki_code(s: Option<RpkiStatus>) -> i32 {
    match s {
        Some(RpkiStatus::Valid) => 1,
        Some(RpkiStatus::Invalid) => 2,
        Some(RpkiStatus::Unknown) => 3,
        None => 0,
    }
}

/// The RPKI code of a verdict (see [`rpki_code`]).
pub fn rpki_code_of(s: Option<RpkiStatus>) -> (r: i32)
    ensures
        r == rpki_code(s),
{
    match s {
        Some(RpkiStatus::Valid) => 1,
        Some(RpkiStatus::Invalid) => 2,
        Some(RpkiStatus::Unknown) => 3,
        None => 0,
    }
}

/// The RPKI verdict on `asn` announcing `prefix`, when the data sets are loaded.
pub(crate) fn rpki_verdict(b: &Option<BgpkitCommons>, asn: u32, prefix: &str) -> (r: Option<RpkiStatus>)
    ensures
        b is None ==> r is None,
        r is Some ==> ipnet_parse(prefix@) is Some,
{
    match b {
        Some(bk) => bgpkit_rpki(bk, asn, prefix),
        None => None,
    }
}

/// The bogon verdict of the downloaded list on `prefix`, when the data sets are loaded.
pub(crate) fn bogon_verdict(b: &Option<BgpkitCommons>, prefix: &str) -> (r: Option<bool>)
    ensures
        b is None ==> r is None,
{
    match b {
        Some(bk) => bgpkit_bogon(bk, prefix),
        None => None,
    }
}

/// The sibling verdict of the data sets on two AS numbers, when they are loaded.
pub(crate) fn sibling_verdict(b: &Option<BgpkitCommons>, asn1: u32, asn2: u32) -> (r: Option<bool>)
    ensures
        b is None ==> r is None,
{
    match b {
        Some(bk) => bgpkit_siblings(bk, asn1, asn2),
        None => None,
    }
}

/// The AS information of `asn`, when the data sets are loaded.
pub(crate) fn asinfo_of(b: &Option<BgpkitCommons>, asn: u32) -> (r: Option<AsInfoFacts>)
    ensures
        b is None ==> r is None,
{
    match b {
        Some(bk) => bgpkit_asinfo(bk, asn),
        None => None,
    }
}

/// Lower-cases a name, when there is one.
pub(crate) fn lowercase_opt(s: &Option<String>) -> (r: Option<String>)
    ensures
        opt_view(r) == match *s {
            Some(t) => Some(lowercase_of(t@)),
            None => None,
        },
{
    match s {
        Some(t) => Some(lowercase(t.as_str())),
        None => None,
    }
}

} // verus!
