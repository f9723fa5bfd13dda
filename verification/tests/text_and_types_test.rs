use bgp_livemap::text::{is_ddos_mitigation, parse_path};
use bgp_livemap::types::{map_classification, ClassificationType, ProtoClassification};

#[test]
fn path_parsing_skips_junk_and_collapses_prepends() {
    assert_eq!(parse_path("100 100 200  {300} 300 4294967295 4294967296 200"), vec![100, 200, 300, 4294967295, 200]);
    assert_eq!(parse_path(""), Vec::<u32>::new());
    assert_eq!(parse_path(" 7\t7\n8 "), vec![7, 8]);
}

#[test]
fn blackhole_communities() {
    assert!(is_ddos_mitigation("65535:666"));
    assert!(is_ddos_mitigation("1:2 3356:666"));
    assert!(!is_ddos_mitigation("65535:6660 666"));
    assert!(!is_ddos_mitigation(""));
}

#[test]
fn classification_codes_round_trip() {
    let all = [
        ClassificationType::Unclassified,
        ClassificationType::Bogon,
        ClassificationType::Hijack,
        ClassificationType::RouteLeak,
        ClassificationType::MinorRouteLeak,
        ClassificationType::Outage,
        ClassificationType::DDoSMitigation,
        ClassificationType::Flap,
        ClassificationType::PathHunting,
        ClassificationType::Discovery,
    ];
    for c in all {
        assert_eq!(ClassificationType::from_i32(c.as_i32()), c);
    }
    assert_eq!(ClassificationType::MinorRouteLeak.as_i32(), 10);
    assert_eq!(ClassificationType::from_i32(7), ClassificationType::Unclassified);
    assert_eq!(ClassificationType::from_i32(-1), ClassificationType::Unclassified);
    assert_eq!(map_classification(ClassificationType::DDoSMitigation), ProtoClassification::DdosMitigation);
    assert_eq!(map_classification(ClassificationType::Unclassified), ProtoClassification::Unspecified);
}
