use bgp_livemap::stats::{default_rate_buckets, CumulativeStats};

#[test]
fn test_default_rate_buckets() {
    let buckets = default_rate_buckets();
    assert_eq!(buckets.len(), 60);
    for bucket in buckets {
        assert_eq!(bucket, 0);
    }
}

#[test]
fn test_cumulative_stats_add_event() {
    let mut stats = CumulativeStats::default();

    stats.add_event(100);
    assert_eq!(stats.msg_count, 1);

    stats.add_event(101);
    assert_eq!(stats.msg_count, 2);
}

#[test]
fn test_cumulative_stats_get_rate() {
    let mut stats = CumulativeStats::default();

    // add some events
    for i in 100..105 {
        stats.add_event(i);
    }

    // window is 10 secs, so total 5 events, rate 0.5
    let (total, window) = stats.get_total_for_window(104, 10);
    let rate = total as f32 / window as f32;
    assert_eq!(rate, 0.5);
}

#[test]
fn test_to_from_snapshot() {
    let mut stats = CumulativeStats::default();
    stats.add_event(200);

    let snapshot = stats.to_snapshot();
    assert_eq!(snapshot.msg_count, 1);
    assert_eq!(snapshot.last_bucket_ts, 200);

    let stats2 = CumulativeStats::from_snapshot(snapshot);
    assert_eq!(stats2.msg_count, 1);
}

#[test]
fn window_total_clamps_and_counts_recent_seconds() {
    let mut stats = CumulativeStats::default();
    stats.add_event(10);
    stats.add_event(10);
    stats.add_event(70);
    // the ring advanced a full minute: only second 70 remains
    let (total, window) = stats.get_total_for_window(70, 500);
    assert_eq!(window, 60);
    assert_eq!(total, 1);
    let (total, window) = stats.get_total_for_window(70, 0);
    assert_eq!(window, 1);
    assert_eq!(total, 1);
}

#[test]
fn current_rate_parts_counts_the_whole_ring() {
    let mut stats = CumulativeStats::default();
    stats.add_event(100);
    stats.add_event(101);
    assert_eq!(stats.get_current_rate_parts(101, 90), Some((2, 11)));
    assert_eq!(stats.get_current_rate_parts(101, 0), Some((2, 60)));
    assert_eq!(stats.get_current_rate_parts(101, 200), Some((2, 1)));
    // a minute later the ring has been cleared
    assert_eq!(stats.get_current_rate_parts(161, 0), Some((0, 60)));
}

#[test]
fn cleanup_twice_is_cleanup_once() {
    let mut a = CumulativeStats::default();
    a.add_event(5);
    a.add_event(6);
    a.cleanup_buckets(30);
    let once = a.rate_buckets.clone();
    a.cleanup_buckets(30);
    assert_eq!(a.rate_buckets, once);
    assert_eq!(a.last_bucket_ts, 30);
}

#[test]
fn snapshot_round_trip_keeps_counters() {
    let mut s = CumulativeStats::default();
    for t in 1000..1010 {
        s.add_event(t);
    }
    let back = CumulativeStats::from_snapshot(s.to_snapshot());
    assert_eq!(back.msg_count, s.msg_count);
    assert_eq!(back.last_bucket_ts, s.last_bucket_ts);
    assert!(back.rate_buckets.iter().all(|b| *b == 0));
}
