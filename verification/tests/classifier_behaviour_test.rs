use bgp_livemap::classifier::{shard_index, Classifier, NUM_SHARDS};
use bgp_livemap::step::DbWrite;
use bgp_livemap::types::{ClassificationType, LeakType, MessageContext};

fn announce(now: i64, host: &str, peer: &str, path: &str, origin: u32, comms: &str) -> MessageContext {
    MessageContext {
        now,
        host: host.to_string(),
        peer: peer.to_string(),
        is_withdrawal: false,
        path_str: path.to_string(),
        comm_str: comms.to_string(),
        origin_asn: origin,
        path_len: path.split_whitespace().count(),
        source: "test".to_string(),
    }
}

fn withdraw(now: i64, host: &str, peer: &str) -> MessageContext {
    MessageContext {
        now,
        host: host.to_string(),
        peer: peer.to_string(),
        is_withdrawal: true,
        path_str: String::new(),
        comm_str: String::new(),
        origin_asn: 0,
        path_len: 0,
        source: "test".to_string(),
    }
}

#[test]
fn private_prefix_is_a_bogon() {
    let mut c = Classifier::new(64, None);
    let r = c.classify_event("10.1.0.0/16".to_string(), &announce(500, "h1", "p1", "1 2 3", 3, ""), 0, 0, None, None, None, "incident-1".to_string());
    assert!(r.applied);
    let e = r.event.unwrap();
    assert_eq!(e.classification_type, ClassificationType::Bogon);
    assert_eq!(e.asn, 3);
    assert_eq!(e.as_name, "");
    assert!(c.has_state(&"10.1.0.0/16".to_string()));
}

#[test]
fn first_announcement_is_a_discovery_with_a_seen_write() {
    let mut c = Classifier::new(64, None);
    let r = c.classify_event("8.8.8.0/24".to_string(), &announce(500, "h1", "p1", "1 2 15169", 15169, ""), 0, 0, Some("Mountain View".to_string()), Some("US".to_string()), None, "incident-2".to_string());
    let e = r.event.unwrap();
    assert_eq!(e.classification_type, ClassificationType::Discovery);
    assert_eq!(e.old_classification, ClassificationType::Unclassified);
    assert_eq!(e.historical_asn, 0);
    assert_eq!(e.city.as_deref(), Some("Mountain View"));
    assert!(r.writes.iter().any(|w| matches!(w, DbWrite::Seen { asn: 15169, .. })));
    assert!(!r.needs_timer);
}

#[test]
fn withdrawal_stores_the_state() {
    let mut c = Classifier::new(64, None);
    c.classify_event("8.8.4.0/24".to_string(), &announce(500, "h1", "p1", "1 2 3", 3, ""), 0, 0, None, None, None, "incident-3".to_string());
    let r = c.classify_event("8.8.4.0/24".to_string(), &withdraw(501, "h1", "p1"), 0, 0, None, None, None, "incident-4".to_string());
    assert!(r.event.is_none());
    let upserts: Vec<&DbWrite> = r.writes.iter().filter(|w| matches!(w, DbWrite::Upsert { .. })).collect();
    assert_eq!(upserts.len(), 1);
    if let DbWrite::Upsert { prefix, ts, c_type, asn, state } = upserts[0] {
        assert_eq!(prefix, "8.8.4.0/24");
        assert_eq!(*ts, 501);
        assert_eq!(*c_type, 0);
        assert_eq!(*asn, 3);
        assert_eq!(state.peer_last_attrs.len(), 1);
        assert!(state.peer_last_attrs[0].1.withdrawn);
        assert_eq!(state.peer_last_attrs[0].0, "h1:p1");
    }
}

#[test]
fn hairpin_seen_by_two_collectors_is_a_minor_route_leak() {
    let mut c = Classifier::new(64, None);
    let p = "9.9.9.0/24".to_string();
    c.classify_event(p.clone(), &announce(500, "h1", "p1", "100 200 100 300", 300, ""), 0, 0, None, None, None, "incident-5".to_string());
    let r = c.classify_event(p.clone(), &announce(501, "h2", "p2", "100 200 100 300", 300, ""), 0, 0, None, None, None, "incident-6".to_string());
    let e = r.event.unwrap();
    assert_eq!(e.classification_type, ClassificationType::MinorRouteLeak);
    let ld = e.leak_detail.unwrap();
    assert_eq!(ld.leak_type, LeakType::Hairpin);
    assert_eq!(ld.leaker_asn, 200);
    assert_eq!(ld.victim_asn, 100);
    assert_eq!(ld.leaker_rpki_status, 0);
    assert!(e.incident_id.is_some());
    assert_eq!(e.incident_start_time, 501);
}

#[test]
fn valley_between_listed_networks_is_a_route_leak_of_the_middle_as() {
    let mut c = Classifier::new(64, None);
    let p = "9.9.8.0/24".to_string();
    // 3356 (tier-1) -> 64500 -> 1299 (tier-1): the middle AS leaks 1299's route
    c.classify_event(p.clone(), &announce(500, "h1", "p1", "3356 64500 1299 400", 400, ""), 0, 0, None, None, None, "incident-7".to_string());
    let r = c.classify_event(p.clone(), &announce(501, "h2", "p2", "3356 64500 1299 400", 400, ""), 0, 0, None, None, None, "incident-8".to_string());
    let ld = r.event.unwrap().leak_detail.unwrap();
    assert_eq!(ld.leak_type, LeakType::ValleyFreeViolation);
    assert_eq!(ld.leaker_asn, 64500);
    assert_eq!(ld.victim_asn, 1299);
}

#[test]
fn blackhole_community_seen_by_three_collectors_is_ddos_mitigation() {
    let mut c = Classifier::new(64, None);
    let p = "9.9.7.0/24".to_string();
    let mut last = None;
    for (i, h) in ["h1", "h2", "h3"].iter().enumerate() {
        let r = c.classify_event(p.clone(), &announce(500 + i as i64, h, "p", "1 2 3", 3, "65000:1 3:666"), 0, 0, None, None, None, "incident-9".to_string());
        last = r.event;
    }
    assert_eq!(last.unwrap().classification_type, ClassificationType::DDoSMitigation);
}

#[test]
fn outage_is_declared_by_the_timer_once() {
    let mut c = Classifier::new(64, None);
    let p = "9.9.6.0/24".to_string();
    for h in ["h1", "h2", "h3"] {
        c.classify_event(p.clone(), &announce(1000, h, "p", "1 2 3", 3, ""), 0, 0, None, None, None, "incident-10".to_string());
    }
    c.classify_event(p.clone(), &withdraw(1001, "h1", "p"), 0, 0, None, None, None, "incident-11".to_string());
    c.classify_event(p.clone(), &withdraw(1001, "h2", "p"), 0, 0, None, None, None, "incident-12".to_string());
    let r = c.classify_event(p.clone(), &withdraw(1001, "h3", "p"), 0, 0, None, None, None, "incident-13".to_string());
    assert!(r.needs_timer);
    assert!(r.event.is_none());

    // too early: nothing
    let early = c.check_outage(&p, 1005, &"incident-14".to_string());
    assert!(early.event.is_none());
    assert!(early.writes.is_empty());

    let due = c.check_outage(&p, 1011, &"incident-15".to_string());
    let e = due.event.unwrap();
    assert_eq!(e.classification_type, ClassificationType::Outage);
    assert_eq!(e.peer_ip, "synthetic");
    assert_eq!(e.source, "timer");
    assert_eq!(e.asn, 3);
    assert_eq!(e.incident_start_time, 1011);
    assert!(e.incident_id.is_some());
    let details = e.anomaly_details.unwrap();
    assert_eq!(details.num_peers, 3);
    assert_eq!(details.num_withdrawals, 3);
    assert_eq!(due.writes.len(), 1);

    let again = c.check_outage(&p, 1020, &"incident-16".to_string());
    assert!(again.event.is_none());
    assert!(again.writes.is_empty());
}

#[test]
fn unknown_prefix_has_no_outage() {
    let mut c = Classifier::new(64, None);
    let r = c.check_outage(&"1.2.3.0/24".to_string(), 5000, &"incident-17".to_string());
    assert!(r.event.is_none());
}

#[test]
fn stored_state_is_used_when_not_cached() {
    let mut a = Classifier::new(64, None);
    let p = "9.9.5.0/24".to_string();
    a.classify_event(p.clone(), &announce(500, "h1", "p1", "1 2 3", 3, ""), 0, 0, None, None, None, "incident-18".to_string());
    let r = a.classify_event(p.clone(), &withdraw(501, "h1", "p1"), 0, 0, None, None, None, "incident-19".to_string());
    let stored = r.writes.into_iter().find_map(|w| match w {
        DbWrite::Upsert { state, .. } => Some(state),
        _ => None,
    });
    let mut b = Classifier::new(64, None);
    assert!(!b.has_state(&p));
    let r2 = b.classify_event(p.clone(), &withdraw(502, "h1", "p1"), 0, 0, None, None, stored, "incident-20".to_string());
    // the stored state remembers the last origin; a fresh one would not
    let asn = r2.writes.iter().find_map(|w| match w {
        DbWrite::Upsert { asn, .. } => Some(*asn),
        _ => None,
    });
    assert_eq!(asn, Some(3));
    assert!(b.has_state(&p));
    let mut fresh = Classifier::new(64, None);
    let r3 = fresh.classify_event(p.clone(), &withdraw(502, "h1", "p1"), 0, 0, None, None, None, "incident-21".to_string());
    let asn3 = r3.writes.iter().find_map(|w| match w {
        DbWrite::Upsert { asn, .. } => Some(*asn),
        _ => None,
    });
    assert_eq!(asn3, Some(0));
}

#[test]
fn shard_index_is_in_range_and_stable() {
    for p in ["1.1.1.0/24", "2001:db8::/32", "", "x"] {
        let i = shard_index(p);
        assert!(i < NUM_SHARDS);
        assert_eq!(i, shard_index(p));
    }
}

#[test]
fn names_are_served_from_the_cache() {
    let mut c = Classifier::new(16, None);
    assert_eq!(c.get_as_name(0), None);
    assert_eq!(c.get_as_name(64500), None);
    c.bgpkit_cache.as2name.insert(64501, Some("Example Net".to_string()));
    assert_eq!(c.get_as_name(64501), Some("Example Net".to_string()));
    assert_eq!(c.rpki_validate(64501, &"1.1.1.0/24".to_string()), 0);
}

#[test]
fn sibling_names_are_compared_lower_cased() {
    let mut c = Classifier::new(16, None);
    c.bgpkit_cache.as2name.insert(1, Some("GOOGLE LLC".to_string()));
    c.bgpkit_cache.as2name.insert(2, Some("Google Cloud".to_string()));
    c.bgpkit_cache.as2name.insert(3, Some("Example".to_string()));
    assert!(c.is_likely_sibling(1, 2));
    assert!(!c.is_likely_sibling(1, 3));
    assert!(c.is_likely_sibling(3, 3));
    c.bgpkit_cache.as2org.insert(3, Some("Org A".to_string()));
    c.bgpkit_cache.as2org.insert(4, Some("Org A".to_string()));
    assert!(c.is_likely_sibling(3, 4));
}

#[test]
fn listed_networks_rank_and_record_customers() {
    let mut c = Classifier::new(16, None);
    assert!(c.is_tier1(3356));
    assert!(!c.is_tier1(15169));
    assert!(c.is_large_network(15169));
    assert!(!c.is_large_network(64500));
    c.update_provider_info(&vec![3356, 64500, 15169, 64501]);
    assert!(c.is_provider(3356, 64500));
    assert!(c.is_provider(15169, 64501));
    assert!(!c.is_provider(64500, 15169));
}

#[test]
fn private_prefix_is_a_local_bogon_without_data_sets() {
    let c = Classifier::new(16, None);
    assert!(c.is_bogon(&"192.168.0.0/16".to_string()));
    assert!(c.is_bogon(&"fe80::/10".to_string()));
    assert!(!c.is_bogon(&"8.8.8.0/24".to_string()));
    assert!(!c.is_bogon(&"not a prefix".to_string()));
    assert_eq!(c.get_historical_asn(&"8.8.8.0/24".to_string()), 0);
}

#[test]
fn lapsed_flap_is_reported_as_ended_with_its_incident() {
    let mut c = Classifier::new(64, None);
    let p = "2.2.9.0/24".to_string();
    for (t, w) in [(1000, false), (1001, true), (1002, false), (1003, true)] {
        for (h, peer) in [("h1", "p1"), ("h2", "p2")] {
            let ctx = if w { withdraw(t, h, peer) } else { announce(t, h, peer, "1 2 100", 100, "") };
            c.classify_event(p.clone(), &ctx, 0, 0, None, None, None, "incident-22".to_string());
        }
    }
    let flap = c.classify_event(p.clone(), &withdraw(1004, "h1", "p1"), 0, 0, None, None, None, "incident-23".to_string()).event.unwrap();
    assert_eq!(flap.classification_type, ClassificationType::Flap);
    let incident = flap.incident_id.clone().unwrap();

    // long after the flap's minute of life, and after its counters aged out
    let r = c.classify_event(p.clone(), &announce(1700, "h1", "p1", "1 2 100", 100, ""), 0, 0, None, None, None, "incident-24".to_string());
    let e = r.event.unwrap();
    assert_eq!(e.classification_type, ClassificationType::Unclassified);
    assert_eq!(e.old_classification, ClassificationType::Flap);
    assert_eq!(e.incident_id, Some(incident));
    assert!(r.writes.iter().any(|w| matches!(w, DbWrite::Upsert { c_type: 0, .. })));
}

#[test]
fn update_with_out_of_range_time_is_not_applied() {
    let mut c = Classifier::new(64, None);
    let r = c.classify_event("8.8.8.0/24".to_string(), &announce(i64::MIN, "h1", "p1", "1 2 3", 3, ""), 0, 0, None, None, None, "incident-25".to_string());
    assert!(!r.applied);
    assert!(r.event.is_none());
    assert!(r.writes.is_empty());
}

#[test]
fn ddos_right_after_a_leak_does_not_replace_it() {
    let mut c = Classifier::new(64, None);
    let p = "9.9.4.0/24".to_string();
    c.classify_event(p.clone(), &announce(500, "h1", "p1", "100 200 100 300", 300, ""), 0, 0, None, None, None, "incident-26".to_string());
    let leak = c.classify_event(p.clone(), &announce(501, "h2", "p2", "100 200 100 300", 300, ""), 0, 0, None, None, None, "incident-27".to_string());
    let leak = leak.event.unwrap();
    assert_eq!(leak.classification_type, ClassificationType::MinorRouteLeak);
    let r = c.classify_event(p.clone(), &announce(502, "h3", "p3", "1 2 300", 300, "300:666"), 0, 0, None, None, None, "incident-28".to_string());
    let e = r.event.unwrap();
    assert_eq!(e.classification_type, ClassificationType::Discovery);
    assert_eq!(e.incident_id, leak.incident_id);
    let snaps = c.prefix_snapshots();
    assert_eq!(snaps.len(), 1);
    assert_eq!(snaps[0].classification, ClassificationType::MinorRouteLeak);
}
