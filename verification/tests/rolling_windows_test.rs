use bgp_livemap::rolling::{RollingWindows, WindowEntry, WindowKey};
use bgp_livemap::types::ClassificationType;

fn quantize(deg: f32) -> i32 {
    (deg * 10.0) as i32
}

#[test]
fn test_rolling_windows_add_and_cleanup() {
    let mut rw = RollingWindows::default();
    let class = ClassificationType::Hijack;

    let (lat, lon) = (10.0f32, 20.0f32);
    rw.add_event(
        quantize(lat),
        quantize(lon),
        lat.to_bits(),
        lon.to_bits(),
        12345,
        "AS12345".to_string(),
        Some("US".to_string()),
        Some("NYC".to_string()),
        None,
        class,
        100,
        "10.0.0.0/24".to_string(),
    );

    assert_eq!(rw.by_location.len(), 1);
    assert_eq!(rw.by_asn.len(), 1);
    assert_eq!(rw.by_country.len(), 1);

    // cleanup, current ts is 200, window is 50, so cut off is 150
    // Event ts 100 should be removed
    rw.cleanup(200, 50);

    assert_eq!(rw.by_location.len(), 0);
    assert_eq!(rw.by_asn.len(), 0);
    assert_eq!(rw.by_country.len(), 0);
}

#[test]
fn test_window_entry_creation() {
    let entry = WindowEntry {
        ts: 100,
        prefix: "192.168.1.0/24".to_string(),
        city: Some("Tokyo".to_string()),
        country: Some("JP".to_string()),
        asn: 4444,
        as_name: "AS4444".to_string(),
        org_name: None,
        lat_bits: 0.0f32.to_bits(),
        lon_bits: 0.0f32.to_bits(),
    };

    assert_eq!(entry.asn, 4444);
    assert_eq!(entry.ts, 100);
}

fn add(rw: &mut RollingWindows, asn: u32, country: Option<&str>, org: Option<&str>, class: ClassificationType, now: i64) {
    rw.add_event(
        1,
        2,
        0,
        0,
        asn,
        format!("AS{}", asn),
        org.map(|s| s.to_string()),
        country.map(|s| s.to_string()),
        None,
        class,
        now,
        "8.8.8.0/24".to_string(),
    );
}

#[test]
fn same_key_events_share_a_group_and_newest_is_last() {
    let mut rw = RollingWindows::default();
    add(&mut rw, 1, Some("DE"), Some("Org"), ClassificationType::Hijack, 10);
    add(&mut rw, 1, Some("DE"), Some("Org"), ClassificationType::Hijack, 20);
    add(&mut rw, 1, Some("DE"), Some("Org"), ClassificationType::Outage, 30);
    assert_eq!(rw.by_asn.len(), 2);
    assert_eq!(rw.by_location.len(), 2);
    assert_eq!(rw.by_country.len(), 2);
    assert_eq!(rw.by_organization.len(), 2);
    let (key, entries) = &rw.by_asn[0];
    assert!(matches!(key, WindowKey::Asn { asn: 1, class: ClassificationType::Hijack }));
    assert_eq!(entries.len(), 2);
    assert_eq!(entries[1].ts, 20);
}

#[test]
fn empty_country_and_organization_are_not_grouped() {
    let mut rw = RollingWindows::default();
    add(&mut rw, 7, Some(""), None, ClassificationType::Flap, 10);
    add(&mut rw, 7, None, Some(""), ClassificationType::Flap, 10);
    assert_eq!(rw.by_country.len(), 0);
    assert_eq!(rw.by_organization.len(), 0);
    assert_eq!(rw.by_asn.len(), 1);
    assert_eq!(rw.by_asn[0].1.len(), 2);
}

#[test]
fn cleanup_keeps_only_recent_entries_in_order() {
    let mut rw = RollingWindows::default();
    for t in [100, 150, 160, 90, 200] {
        add(&mut rw, 5, Some("FR"), None, ClassificationType::Discovery, t);
    }
    add(&mut rw, 6, Some("FR"), None, ClassificationType::Discovery, 120);
    rw.cleanup(200, 50);
    assert_eq!(rw.by_asn.len(), 1);
    let ts: Vec<i64> = rw.by_asn[0].1.iter().map(|e| e.ts).collect();
    assert_eq!(ts, vec![150, 160, 200]);
    for (_, entries) in rw.by_location.iter().chain(rw.by_country.iter()) {
        assert!(!entries.is_empty());
        assert!(entries.iter().all(|e| e.ts >= 150));
    }
}
