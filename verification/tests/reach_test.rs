use bgp_livemap::prefix::parse_prefix;
use bgp_livemap::reach::{group_reach, is_beacon, reaches_far};
use bgp_livemap::rolling::{WindowEntry, WindowKey};
use bgp_livemap::types::ClassificationType;

fn entry(prefix: &str, asn: u32) -> WindowEntry {
    WindowEntry {
        ts: 0,
        prefix: prefix.to_string(),
        city: None,
        country: None,
        asn,
        as_name: String::new(),
        org_name: None,
        lat_bits: 0,
        lon_bits: 0,
    }
}

#[test]
fn beacons_overlap_both_ways() {
    let beacons = vec![parse_prefix("84.205.65.0/24").unwrap(), parse_prefix("93.175.154.128/28").unwrap()];
    assert!(is_beacon("84.205.65.0/24", &beacons));
    assert!(is_beacon("84.205.65.128/25", &beacons));
    assert!(is_beacon("84.205.0.0/16", &beacons));
    assert!(is_beacon("93.175.154.128/25", &beacons));
    assert!(!is_beacon("93.175.154.0/25", &beacons));
    assert!(!is_beacon("8.8.8.0/24", &beacons));
    assert!(!is_beacon("::/0", &beacons));
    assert!(!is_beacon("junk", &beacons));
}

#[test]
fn reach_counts_distinct_prefixes_once() {
    let es = vec![
        entry("10.0.0.0/24", 1),
        entry("10.0.0.0/24", 2),
        entry("10.1.0.0/16", 1),
        entry("2001:db8::/32", 3),
        entry("junk", 3),
        entry("0.0.0.0/0", 4),
    ];
    let r = group_reach(&es);
    assert_eq!(r.prefixes, vec!["10.0.0.0/24", "10.1.0.0/16", "2001:db8::/32", "junk", "0.0.0.0/0"]);
    assert_eq!(r.asns, vec![1, 2, 3, 4]);
    assert_eq!(r.ipv4_addresses, 256 + 65536 + (1u64 << 32));
    assert_eq!(r.ipv6_prefixes, 1);
}

#[test]
fn report_thresholds_depend_on_the_grouping() {
    let small = group_reach(&vec![entry("10.0.0.0/20", 1)]);
    assert_eq!(small.ipv4_addresses, 4096);
    let mid = group_reach(&vec![entry("10.0.0.0/18", 1)]);
    let loc = WindowKey::Location { lat_q: 0, lon_q: 0, class: ClassificationType::Hijack };
    let country = WindowKey::Country { country: "DE".to_string(), class: ClassificationType::Hijack };
    let org = WindowKey::Organization { org: "O".to_string(), class: ClassificationType::Hijack };
    assert!(!reaches_far(&loc, &small));
    assert!(reaches_far(&loc, &mid));
    assert!(!reaches_far(&country, &mid));
    assert!(!reaches_far(&org, &mid));
    let big = group_reach(&vec![entry("10.0.0.0/15", 1)]);
    assert!(reaches_far(&country, &big));
    assert!(reaches_far(&org, &big));
}
