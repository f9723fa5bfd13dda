use bgp_livemap::classifier::{bogon_from, Classifier};
use bgp_livemap::decide::AsnRank;
use bgp_livemap::disk_trie::{u32_from_be_value, u32_to_be_bytes, DiskTrie};
use bgp_livemap::lookup::{
    f64_bits_greater, name_from_info, org_from_info, rank_from_info, rpki_code_of, share_sibling_word,
    siblings_from, AsInfoFacts, RpkiStatus, LARGE_SHARE_BITS, TIER1_HEGEMONY_BITS,
};
use bgp_livemap::prefix::{is_local_bogon, parse_prefix, IpPrefix};

fn info(name: &str, org: Option<&str>, heg: Option<(f64, f64)>, pop: Option<(f64, i64)>) -> Option<AsInfoFacts> {
    Some(AsInfoFacts {
        name: name.to_string(),
        org_name: org.map(|s| s.to_string()),
        hegemony_bits: heg.map(|(a, b)| (a.to_bits(), b.to_bits())),
        population: pop.map(|(s, u)| (s.to_bits(), u)),
    })
}

#[test]
fn threshold_bit_patterns_are_the_documented_scores() {
    assert_eq!(TIER1_HEGEMONY_BITS, 0.05f64.to_bits());
    assert_eq!(LARGE_SHARE_BITS, 0.01f64.to_bits());
}

#[test]
fn float_bits_compare_as_values() {
    for (x, t) in [(0.06f64, 0.05f64), (0.05, 0.05), (0.0, 0.01), (-1.0, 0.01), (f64::INFINITY, 0.05), (f64::NAN, 0.05), (1e-9, 0.01), (0.5, 0.01)] {
        assert_eq!(f64_bits_greater(x.to_bits(), t.to_bits()), x > t, "{} > {}", x, t);
    }
}

#[test]
fn rank_follows_hegemony_population_and_lists() {
    let r = rank_from_info(64500, &info("x", None, Some((0.06, 0.0)), None));
    assert!(r.tier1 && r.large);
    let r = rank_from_info(64500, &info("x", None, Some((0.05, 0.02)), None));
    assert!(!r.tier1 && r.large);
    let r = rank_from_info(64500, &info("x", None, None, Some((0.001, 20_000_000))));
    assert!(!r.tier1 && r.large);
    let r = rank_from_info(64500, &info("x", None, None, Some((0.02, 5))));
    assert!(r.large);
    let r: AsnRank = rank_from_info(64500, &None);
    assert!(!r.tier1 && !r.large);
    assert!(rank_from_info(174, &None).tier1);
    assert!(rank_from_info(13335, &None).large);
}

#[test]
fn name_prefers_the_as_name_then_the_organisation() {
    assert_eq!(name_from_info(info("Cloudflare", Some("Cloudflare, Inc."), None, None)), Some("Cloudflare".to_string()));
    assert_eq!(name_from_info(info("", Some("Org Name"), None, None)), Some("Org Name".to_string()));
    assert_eq!(name_from_info(info("", None, None, None)), None);
    assert_eq!(name_from_info(None), None);
    assert_eq!(org_from_info(info("a", Some("Org"), None, None)), Some("Org".to_string()));
}

#[test]
fn sibling_rules() {
    assert!(siblings_from(Some(true), &None, &None, &None, &None));
    assert!(!siblings_from(Some(false), &None, &None, &None, &None));
    assert!(siblings_from(None, &Some("O".to_string()), &Some("O".to_string()), &None, &None));
    assert!(!siblings_from(None, &Some("O".to_string()), &Some("P".to_string()), &None, &None));
    assert!(siblings_from(None, &None, &None, &Some("amazon.com".to_string()), &Some("amazon data services".to_string())));
    assert!(!siblings_from(None, &None, &None, &Some("amazon".to_string()), &Some("akamai".to_string())));
    assert!(share_sibling_word(&"china telecom backbone".to_string(), &"xx china telecom".to_string()));
    assert!(!share_sibling_word(&"china".to_string(), &"telecom".to_string()));
}

#[test]
fn rpki_codes() {
    assert_eq!(rpki_code_of(Some(RpkiStatus::Valid)), 1);
    assert_eq!(rpki_code_of(Some(RpkiStatus::Invalid)), 2);
    assert_eq!(rpki_code_of(Some(RpkiStatus::Unknown)), 3);
    assert_eq!(rpki_code_of(None), 0);
}

#[test]
fn bogon_verdict_wins_over_local_ranges() {
    assert!(bogon_from(Some(true), &"8.8.8.0/24".to_string()));
    assert!(!bogon_from(Some(false), &"10.0.0.0/8".to_string()));
    assert!(bogon_from(None, &"10.0.0.0/8".to_string()));
    assert!(is_local_bogon("100.64.0.0/10"));
    assert!(is_local_bogon("198.51.100.0/24"));
    assert!(is_local_bogon("::1/128"));
    assert!(!is_local_bogon("2001:db8::/32"));
}

#[test]
fn prefixes_parse_to_address_and_length() {
    assert_eq!(parse_prefix("1.2.3.0/24"), Some(IpPrefix::V4 { addr: 0x0102_0300, len: 24 }));
    assert_eq!(parse_prefix("2001:db8::/32"), Some(IpPrefix::V6 { addr: 0x2001_0db8u128 << 96, len: 32 }));
    assert_eq!(parse_prefix("1.2.3.4"), None);
    assert_eq!(parse_prefix("1.2.3.0/33"), None);
}

#[test]
fn trie_finds_the_longest_covering_prefix() {
    let db = sled::Config::new().temporary(true).open().unwrap();
    let trie = DiskTrie::new(db.open_tree("seen").unwrap());
    trie.insert(parse_prefix("10.0.0.0/8").unwrap(), &u32_to_be_bytes(64500)).ok().unwrap();
    trie.insert(parse_prefix("10.1.0.0/16").unwrap(), &u32_to_be_bytes(64501)).ok().unwrap();
    trie.insert(parse_prefix("2001:db8::/32").unwrap(), &u32_to_be_bytes(64502)).ok().unwrap();
    let hit = trie.lookup_lpm_v4(0x0a01_0203).ok().unwrap().unwrap();
    assert_eq!(hit.0, 16);
    assert_eq!(u32_from_be_value(&hit.1), Some(64501));
    let hit = trie.lookup_lpm_v4(0x0a02_0203).ok().unwrap().unwrap();
    assert_eq!(hit.0, 8);
    assert!(trie.lookup_lpm_v4(0x0b00_0000).ok().unwrap().is_none());
    let hit = trie.lookup_lpm_v6((0x2001_0db8u128 << 96) | 7).ok().unwrap().unwrap();
    assert_eq!(hit.0, 32);
    assert_eq!(u32_from_be_value(&hit.1), Some(64502));
    assert_ne!(DiskTrie::key_of(parse_prefix("10.0.0.0/8").unwrap()), DiskTrie::key_of(parse_prefix("10.0.0.0/9").unwrap()));

    let mut c = Classifier::new(16, Some(trie));
    assert_eq!(c.get_historical_asn(&"10.1.9.0/24".to_string()), 64501);
    assert_eq!(c.get_historical_asn(&"11.0.0.0/8".to_string()), 0);
    assert_eq!(c.get_as_org(5), None);
}
