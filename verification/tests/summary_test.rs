use bgp_livemap::classifier::Classifier;
use bgp_livemap::stats::CumulativeStats;
use bgp_livemap::summary::{class_summary, summary_key};
use bgp_livemap::types::{ClassificationStats, ClassificationType, MessageContext};

fn announce(now: i64, prefix_host: &str) -> MessageContext {
    MessageContext {
        now,
        host: prefix_host.to_string(),
        peer: "p".to_string(),
        is_withdrawal: false,
        path_str: "1 2 3".to_string(),
        comm_str: String::new(),
        origin_asn: 3,
        path_len: 3,
        source: "test".to_string(),
    }
}

#[test]
fn snapshots_list_only_classified_prefixes() {
    let mut c = Classifier::new(64, None);
    c.classify_event("10.9.0.0/16".to_string(), &announce(500, "h1"), 0, 0, None, None, None, "incident-1".to_string());
    c.classify_event("10.9.0.0/16".to_string(), &announce(501, "h2"), 0, 0, None, None, None, "incident-2".to_string());
    c.classify_event("8.8.8.0/24".to_string(), &announce(500, "h1"), 0, 0, None, None, None, "incident-3".to_string());
    let snaps = c.prefix_snapshots();
    assert_eq!(snaps.len(), 1);
    assert_eq!(snaps[0].prefix, "10.9.0.0/16");
    assert_eq!(snaps[0].classification, ClassificationType::Bogon);
    assert_eq!(snaps[0].asn, 3);
    assert_eq!(snaps[0].last_update_ts, 501);
    assert_eq!(snaps[0].total_events, 2);
}

#[test]
fn class_summary_reads_counters_and_store_totals() {
    assert_eq!(summary_key(ClassificationType::Discovery), ClassificationType::Unclassified);
    assert_eq!(summary_key(ClassificationType::Hijack), ClassificationType::Hijack);

    let mut stats = CumulativeStats::default();
    for t in [100, 100, 101] {
        stats.add_event(t);
    }
    let db = ClassificationStats::from_counts(10, 4, 3);
    let s = class_summary(ClassificationType::Hijack, &mut stats, 101, 91, Some(&db), None);
    assert_eq!(s.count, 3);
    assert_eq!(s.rate, Some((3, 10)));
    assert_eq!(s.total_count, 3);
    assert_eq!(s.prefix_count, 10);
    assert_eq!(s.ipv6_prefix_count, 6);
    assert_eq!(s.asn_count, 3);
    assert_eq!(s.ipv4_count, 1024);
    let s = class_summary(ClassificationType::Hijack, &mut stats, 101, 91, Some(&db), Some(0));
    assert_eq!(s.ipv4_count, 1024);
    let s = class_summary(ClassificationType::Hijack, &mut stats, 101, 91, None, Some(77));
    assert_eq!(s.ipv4_count, 77);
    assert_eq!(s.prefix_count, 0);
}
