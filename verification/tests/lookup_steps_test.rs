use bgp_livemap::classifier::Classifier;
use bgp_livemap::coverage::{covered_v4, largest_coverage, rpki_coverage_of};
use bgp_livemap::ingest::parse_routeviews;
use bgp_livemap::disk_trie::{lpm_next, origin_from_hit, LpmStep};
use bgp_livemap::pacing::{alert_window, dataset_intervals, next_backoff, refresh_due, Dataset};
use bgp_livemap::types::{ClassificationType, MessageContext};

fn ctx(now: i64, host: &str, is_withdrawal: bool, origin: u32) -> MessageContext {
    MessageContext {
        now,
        host: host.to_string(),
        peer: "p".to_string(),
        is_withdrawal,
        path_str: if is_withdrawal { String::new() } else { "1 2 3".to_string() },
        comm_str: String::new(),
        origin_asn: origin,
        path_len: if is_withdrawal { 0 } else { 3 },
        source: "test".to_string(),
    }
}

#[test]
fn a_hit_is_the_answer_with_its_length() {
    match lpm_next(16, Ok(Some(vec![1, 2]))) {
        LpmStep::Hit(len, v) => {
            assert_eq!(len, 16);
            assert_eq!(v, vec![1, 2]);
        }
        _ => panic!("expected a hit"),
    }
}

#[test]
fn a_miss_probes_one_length_shorter() {
    assert!(matches!(lpm_next(16, Ok(None)), LpmStep::Probe(15)));
    assert!(matches!(lpm_next(1, Ok(None)), LpmStep::Probe(0)));
}

#[test]
fn a_miss_at_length_zero_ends_the_lookup() {
    assert!(matches!(lpm_next(0, Ok(None)), LpmStep::Miss));
}

#[test]
fn a_four_byte_hit_is_an_origin() {
    assert_eq!(origin_from_hit(Ok(Some((8, vec![0, 0, 0x0d, 0x1c])))), 3356);
    assert_eq!(origin_from_hit(Ok(Some((8, vec![0, 0, 0x0d])))), 0);
    assert_eq!(origin_from_hit(Ok(None)), 0);
}

#[test]
fn adjacent_prefixes_are_counted_once_merged() {
    let nets = vec![(0x0a00_0000u32, 24u8), (0x0a00_0100, 24), (0x0a00_0200, 24), (0x0a00_0000, 23)];
    assert_eq!(covered_v4(&nets), 768);
    assert_eq!(covered_v4(&vec![]), 0);
    assert_eq!(covered_v4(&vec![(0, 0)]), 1u64 << 32);
}

#[test]
fn backoff_doubles_up_to_its_cap() {
    assert_eq!(next_backoff(5, 300), 10);
    assert_eq!(next_backoff(160, 300), 300);
    assert_eq!(next_backoff(300, 300), 300);
    assert_eq!(next_backoff(1, 60), 2);
}

#[test]
fn alerts_share_a_four_hour_window() {
    assert_eq!(alert_window(0), 0);
    assert_eq!(alert_window(14399), 0);
    assert_eq!(alert_window(14400), 1);
    assert_eq!(alert_window(-1), 0);
    assert_eq!(alert_window(-14400), -1);
}

#[test]
fn an_announcement_never_asks_for_the_timer() {
    let mut c = Classifier::new(64, None);
    let p = "9.9.7.0/24".to_string();
    for h in ["h1", "h2", "h3"] {
        c.classify_event(p.clone(), &ctx(1000, h, false, 3), 0, 0, None, None, None, "incident-1".to_string());
    }
    c.classify_event(p.clone(), &ctx(1001, "h1", true, 0), 0, 0, None, None, None, "incident-2".to_string());
    c.classify_event(p.clone(), &ctx(1001, "h2", true, 0), 0, 0, None, None, None, "incident-3".to_string());
    let r = c.classify_event(p.clone(), &ctx(1040, "h3", false, 3), 0, 0, None, None, None, "incident-4".to_string());
    assert!(!r.needs_timer);
}

#[test]
fn a_declared_outage_leaves_other_prefixes_unknown() {
    let mut c = Classifier::new(64, None);
    let p = "9.9.8.0/24".to_string();
    for h in ["h1", "h2", "h3"] {
        c.classify_event(p.clone(), &ctx(1000, h, false, 3), 0, 0, None, None, None, "incident-5".to_string());
    }
    for h in ["h1", "h2", "h3"] {
        c.classify_event(p.clone(), &ctx(1001, h, true, 0), 0, 0, None, None, None, "incident-6".to_string());
    }
    let due = c.check_outage(&p, 1011, &"incident-7".to_string());
    assert_eq!(due.event.unwrap().classification_type, ClassificationType::Outage);
    assert!(c.check_outage(&"9.9.9.0/24".to_string(), 1020, &"incident-8".to_string()).event.is_none());
    let snaps = c.prefix_snapshots();
    assert_eq!(snaps.iter().filter(|s| s.prefix == p).count(), 1);
}

#[test]
fn rpki_coverage_counts_merged_addresses_by_standing() {
    let rows = vec![
        ("10.0.0.0/24".to_string(), 100),
        ("10.0.1.0/24".to_string(), 100),
        ("11.0.0.0/16".to_string(), 200),
        ("12.0.0.0/24".to_string(), 0),
        ("2001:db8::/32".to_string(), 300),
        ("2001:db9::/32".to_string(), 0),
        ("not a prefix".to_string(), 5),
    ];
    let codes = vec![1, 1, 2, 1, 1, 0, 1];
    let cov = rpki_coverage_of(&rows, &codes);
    assert_eq!(cov.valid_v4, 512);
    assert_eq!(cov.invalid_v4, 65536);
    assert_eq!(cov.not_found_v4, 256);
    assert_eq!(cov.valid_v6, 1);
    assert_eq!(cov.invalid_v6, 0);
    assert_eq!(cov.not_found_v6, 1);
}

#[test]
fn rpki_codes_without_data_sets_are_zero() {
    let c = Classifier::new(64, None);
    let rows = vec![("10.0.0.0/24".to_string(), 100), ("10.0.1.0/24".to_string(), 0)];
    assert_eq!(c.rpki_codes(&rows), vec![0, 0]);
}

#[test]
fn datasets_are_refreshed_or_retried_when_due() {
    assert_eq!(dataset_intervals(Dataset::Rpki), (86400, 3600));
    assert_eq!(dataset_intervals(Dataset::AsInfo), (7 * 86400, 86400));
    assert_eq!(dataset_intervals(Dataset::MrtCollectors), (30 * 86400, 7 * 86400));
    assert_eq!(refresh_due(86400, 0, 0, 86400, 3600), (true, false));
    assert_eq!(refresh_due(86399, 0, 0, 86400, 3600), (false, false));
    assert_eq!(refresh_due(5000, 0, 1000, 86400, 3600), (false, true));
    assert_eq!(refresh_due(4000, 0, 1000, 86400, 3600), (false, false));
}

#[test]
fn consecutive_failures_double_the_wait_to_the_cap() {
    let mut w = 5;
    let mut seen = Vec::new();
    for _ in 0..8 {
        w = next_backoff(w, 300);
        seen.push(w);
    }
    assert_eq!(seen, vec![10, 20, 40, 80, 160, 300, 300, 300]);
}

#[test]
fn bytes_that_are_no_openbmp_message_give_no_elements() {
    assert!(parse_routeviews(&[0u8, 1, 2, 3]).is_none());
    assert!(parse_routeviews(b"OBMP").is_none());
}

#[test]
fn the_largest_organisation_is_the_first_with_most_addresses() {
    let groups = vec![
        ("a".to_string(), vec![(0x0a00_0000u32, 24u8)]),
        ("b".to_string(), vec![(0x0b00_0000, 24), (0x0b00_0100, 24)]),
        ("c".to_string(), vec![(0x0c00_0000, 23)]),
    ];
    assert_eq!(largest_coverage(&groups), Some((1, 512)));
    assert_eq!(largest_coverage(&vec![]), None);
}
