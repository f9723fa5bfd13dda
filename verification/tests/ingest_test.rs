use bgp_livemap::classifier::Classifier;
use bgp_livemap::ingest::{
    elem_context, join_texts, parse_ris_live, parse_routeviews, process_elem, unclassified_event, FeedSource,
    UpdateElem,
};
use bgp_livemap::types::ClassificationType;

fn elem(prefix: &str, path: Option<&str>, origins: Option<Vec<u32>>, comms: Option<Vec<&str>>, withdrawal: bool) -> UpdateElem {
    UpdateElem {
        prefix: prefix.to_string(),
        peer_ip: "192.0.2.1".to_string(),
        is_withdrawal: withdrawal,
        as_path: path.map(|p| p.to_string()),
        path_segments: path.map(|p| vec![p.split_whitespace().filter_map(|w| w.parse().ok()).collect()]),
        origin_asns: origins,
        communities: comms.map(|c| c.iter().map(|s| s.to_string()).collect()),
    }
}

#[test]
fn context_takes_origin_from_the_path_when_none_is_given() {
    let e = elem("8.8.8.0/24", Some("64500 64501 15169"), None, Some(vec!["1:2", "3:666"]), false);
    let ctx = elem_context(&e, FeedSource::RisLive, 1000);
    assert_eq!(ctx.origin_asn, 15169);
    assert_eq!(ctx.comm_str, "1:2 3:666");
    assert_eq!(ctx.path_len, 3);
    assert_eq!(ctx.host, "192.0.2.1");
    assert_eq!(ctx.peer, "192.0.2.1");
    assert_eq!(ctx.source, "ris");
    assert!(!ctx.is_withdrawal);

    let e = elem("8.8.8.0/24", Some("64500 {64502,64503}"), Some(vec![0, 7]), None, false);
    let ctx = elem_context(&e, FeedSource::RouteViews, 1000);
    assert_eq!(ctx.origin_asn, 0);
    assert_eq!(ctx.comm_str, "");
    assert_eq!(ctx.host, "routeviews");
    assert_eq!(ctx.source, "routeviews");

    let e = elem("8.8.8.0/24", Some("64500 64501"), Some(vec![9, 7]), None, false);
    assert_eq!(elem_context(&e, FeedSource::RisLive, 5).origin_asn, 9);
}

#[test]
fn texts_join_with_single_spaces() {
    assert_eq!(join_texts(&vec![]), "");
    assert_eq!(join_texts(&vec!["a".to_string()]), "a");
    assert_eq!(join_texts(&vec!["a".to_string(), "".to_string(), "b c".to_string()]), "a  b c");
}

#[test]
fn plain_event_for_unclassified_elements() {
    let e = elem("8.8.8.0/24", Some("1 2 3"), None, None, false);
    let ev = unclassified_event(&e, FeedSource::RouteViews, 77, 1, 2, &Some("X".to_string()), &None);
    assert_eq!(ev.classification_type, ClassificationType::Unclassified);
    assert_eq!(ev.asn, 3);
    assert_eq!(ev.peer_ip, "routeviews");
    assert_eq!(ev.source, "routeviews");
    assert_eq!(ev.timestamp, 77);
    assert_eq!(ev.lat_bits, 1);
    assert_eq!(ev.city.as_deref(), Some("X"));
}

#[test]
fn elements_are_classified_or_shown_plain() {
    let mut c = Classifier::new(32, None);
    let a = elem("8.8.8.0/24", Some("1 2 3"), Some(vec![3]), None, false);
    let out = process_elem(&mut c, &a, FeedSource::RisLive, 100, 0, 0, None, None, None, "incident-1".to_string());
    assert!(out.classified);
    assert_eq!(out.event.classification_type, ClassificationType::Discovery);
    let w = elem("9.9.9.0/24", None, None, None, true);
    let out = process_elem(&mut c, &w, FeedSource::RisLive, 101, 0, 0, None, None, None, "incident-2".to_string());
    assert!(!out.classified);
    assert_eq!(out.event.classification_type, ClassificationType::Unclassified);
    assert_eq!(out.event.prefix, "9.9.9.0/24");
}

#[test]
fn ris_live_messages_are_decoded() {
    let msg = r#"{"type":"ris_message","data":{"timestamp":1568279796.63,"peer":"192.0.2.0","peer_asn":"64496","id":"21-192-0-2-0-1","host":"rrc21","type":"UPDATE","path":[64496,64497,64498],"community":[[64496,666]],"origin":"igp","announcements":[{"next_hop":"192.0.2.0","prefixes":["198.51.100.0/24"]}],"withdrawals":["203.0.113.0/24"]}}"#;
    let elems = parse_ris_live(msg).expect("a RIS Live update");
    assert_eq!(elems.len(), 2);
    let ann = elems.iter().find(|e| !e.is_withdrawal).unwrap();
    assert_eq!(ann.prefix, "198.51.100.0/24");
    assert_eq!(ann.peer_ip, "192.0.2.0");
    assert_eq!(ann.as_path.as_deref(), Some("64496 64497 64498"));
    assert_eq!(ann.path_segments, Some(vec![vec![64496, 64497, 64498]]));
    let ctx = elem_context(ann, FeedSource::RisLive, 0);
    assert_eq!(ctx.origin_asn, 64498);
    assert!(ctx.comm_str.contains("666"));
    let wd = elems.iter().find(|e| e.is_withdrawal).unwrap();
    assert_eq!(wd.prefix, "203.0.113.0/24");
    assert!(parse_ris_live("not json").is_none());
}

#[test]
fn garbage_bmp_payloads_are_rejected() {
    assert!(parse_routeviews(&[1, 2, 3]).is_none());
    assert!(parse_routeviews(&[]).is_none());
}
