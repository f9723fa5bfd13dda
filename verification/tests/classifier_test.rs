use bgp_livemap::classifier::Classifier;
use bgp_livemap::disk_trie::DiskTrie;
use bgp_livemap::prefix::parse_prefix;
use bgp_livemap::types::{ClassificationType, MessageContext};

fn setup_classifier() -> Classifier {
    Classifier::new(100, None)
}

fn mock_ctx(now: i64, host: &str, peer: &str, is_withdrawal: bool, origin_asn: u32) -> MessageContext {
    MessageContext {
        now,
        host: host.to_string(),
        peer: peer.to_string(),
        is_withdrawal,
        path_str: if is_withdrawal {
            String::new()
        } else {
            format!("1 2 {}", origin_asn)
        },
        comm_str: String::new(),
        origin_asn: if is_withdrawal { 0 } else { origin_asn },
        path_len: if is_withdrawal { 0 } else { 3 },
        source: "test".to_string(),
    }
}

fn setup_classifier_with_db() -> Classifier {
    let sled_db = sled::Config::new().temporary(true).open().unwrap();
    let tree = sled_db.open_tree("seen").unwrap();
    Classifier::new(100, Some(DiskTrie::new(tree)))
}

#[test]
fn test_hijack_threshold() {
    let mut classifier = setup_classifier_with_db();
    let prefix_str = "1.1.1.0/24";
    let prefix = prefix_str.to_string();
    let net = parse_prefix(prefix_str).unwrap();

    // 1. Establish historical ASN in seen_db
    assert!(classifier
        .seen_db
        .as_ref()
        .unwrap()
        .insert(net, &100u32.to_be_bytes())
        .is_ok());

    // 2. New origin seen by 1 host (should NOT be Hijack yet)
    let ctx2 = mock_ctx(1001, "host2", "2.2.2.2", false, 200);
    let res2 = classifier.classify_event(prefix.clone(), &ctx2, 0, 0, None, None, None, "incident-1".to_string());
    if let Some(event) = res2.event {
        assert_ne!(event.classification_type, ClassificationType::Hijack);
    }

    // 3. New origin seen by 2nd host (still NOT Hijack because threshold is 5)
    let ctx3 = mock_ctx(1002, "host3", "3.3.3.3", false, 200);
    let res3 = classifier.classify_event(prefix.clone(), &ctx3, 0, 0, None, None, None, "incident-2".to_string());
    if let Some(event) = res3.event {
        assert_ne!(event.classification_type, ClassificationType::Hijack);
    }

    // 4. New origin seen by 3rd host (still NOT Hijack)
    let ctx4 = mock_ctx(1003, "host4", "4.4.4.4", false, 200);
    let res4 = classifier.classify_event(prefix.clone(), &ctx4, 0, 0, None, None, None, "incident-3".to_string());
    if let Some(event) = res4.event {
        assert_ne!(event.classification_type, ClassificationType::Hijack);
    }

    // 5. New origin seen by 4th host (still NOT Hijack)
    let ctx5 = mock_ctx(1004, "host5", "5.5.5.5", false, 200);
    let res5 = classifier.classify_event(prefix.clone(), &ctx5, 0, 0, None, None, None, "incident-4".to_string());
    if let Some(event) = res5.event {
        assert_ne!(event.classification_type, ClassificationType::Hijack);
    }

    // 6. New origin seen by 5th host (SHOULD be Hijack)
    let ctx6 = mock_ctx(1005, "host6", "6.6.6.6", false, 200);
    let res6 = classifier.classify_event(prefix.clone(), &ctx6, 0, 0, None, None, None, "incident-5".to_string());
    assert!(res6.event.is_some());
    assert_eq!(
        res6.event.unwrap().classification_type,
        ClassificationType::Hijack
    );
}

#[test]
fn test_flap_detection_on_withdrawal() {
    let mut classifier = setup_classifier();
    let prefix = "2.2.2.0/24".to_string();

    // Use 2 hosts to meet the host threshold
    // Flap 1: Announce
    classifier.classify_event(prefix.clone(), &mock_ctx(1000, "h1", "p1", false, 100), 0, 0, None, None, None, "incident-6".to_string());
    classifier.classify_event(prefix.clone(), &mock_ctx(1000, "h2", "p2", false, 100), 0, 0, None, None, None, "incident-7".to_string());

    // Flap 2: Withdraw
    classifier.classify_event(prefix.clone(), &mock_ctx(1001, "h1", "p1", true, 100), 0, 0, None, None, None, "incident-8".to_string());
    classifier.classify_event(prefix.clone(), &mock_ctx(1001, "h2", "p2", true, 100), 0, 0, None, None, None, "incident-9".to_string());

    // Flap 3: Announce
    classifier.classify_event(prefix.clone(), &mock_ctx(1002, "h1", "p1", false, 100), 0, 0, None, None, None, "incident-10".to_string());
    classifier.classify_event(prefix.clone(), &mock_ctx(1002, "h2", "p2", false, 100), 0, 0, None, None, None, "incident-11".to_string());

    // Flap 4: Withdraw (SHOULD trigger Flap classification even though it's a withdrawal and currently inactive)
    let res = classifier.classify_event(prefix.clone(), &mock_ctx(1003, "h1", "p1", true, 100), 0, 0, None, None, None, "incident-12".to_string());

    assert!(res.event.is_some());
    assert_eq!(res.event.unwrap().classification_type, ClassificationType::Flap);
}
