use routescope::domain::{
    floor_to_minute_ms, normalize_display_name, ConnectionState, DomainAttribution,
    DomainConfidence, DomainSource, Flow, FlowDirection,
};

fn valid_flow() -> Flow {
    Flow {
        flow_id: "flow-1".to_string(),
        first_seen: 1_000,
        last_seen: 2_000,
        protocol: "tcp".to_string(),
        direction: FlowDirection::Bidirectional,
        lan_interface: "br-lan".to_string(),
        wan_interface: "eth0".to_string(),
        client_mac: "aa:bb:cc:dd:ee:ff".to_string(),
        client_ip: "192.168.1.10".to_string(),
        client_port: 51_234,
        destination_ip: "93.184.216.34".to_string(),
        destination_port: 443,
        nat_source_ip: Some("203.0.113.10".to_string()),
        nat_source_port: Some(40_001),
        nat_destination_ip: Some("93.184.216.34".to_string()),
        nat_destination_port: Some(443),
        upload_bytes: 1_024,
        download_bytes: 256,
        packet_count: 12,
        domain: Some(DomainAttribution {
            domain: "example.com".to_string(),
            source: DomainSource::Dns,
            confidence: DomainConfidence::High,
            associated_at: 900,
            expires_at: Some(3_600),
        }),
        connection_state: ConnectionState::Established,
    }
}

#[test]
fn valid_flow_passes_validation() {
    assert!(valid_flow().validate().is_ok());
}

#[test]
fn flow_rejects_invalid_time_range() {
    let mut flow = valid_flow();
    flow.first_seen = 3_000;
    flow.last_seen = 2_000;
    assert_eq!(
        flow.validate(),
        Err("first_seen must not be after last_seen")
    );
}

#[test]
fn flow_rejects_missing_stable_device_identity() {
    let mut flow = valid_flow();
    flow.client_mac.clear();
    assert_eq!(flow.validate(), Err("client_mac must not be empty"));
}

#[test]
fn bidirectional_flow_uses_lan_client_perspective() {
    let upload = valid_flow();
    assert_eq!(upload.direction, FlowDirection::Bidirectional);
    assert_eq!(upload.upload_bytes, 1_024);
    assert_eq!(upload.download_bytes, 256);
}

#[test]
fn flow_rejects_partial_nat_mapping() {
    let mut flow = valid_flow();
    flow.nat_destination_port = None;
    assert_eq!(
        flow.validate(),
        Err("NAT mapping fields must be provided together")
    );
}
#[test]
fn floor_to_minute_aligns_to_bucket_start() {
    assert_eq!(floor_to_minute_ms(61_234), 60_000);
    assert_eq!(floor_to_minute_ms(60_000), 60_000);
}

#[test]
fn display_name_normalization_trims_and_allows_clearing() {
    assert_eq!(
        normalize_display_name(Some("  Living Room TV  ")).unwrap(),
        Some("Living Room TV".to_owned())
    );
    assert_eq!(normalize_display_name(Some("   ")).unwrap(), None);
    assert!(normalize_display_name(Some("bad\nname")).is_err());
}

#[test]
fn display_name_limit_counts_unicode_characters() {
    let accepted = "测".repeat(128);
    assert_eq!(
        normalize_display_name(Some(&accepted)).unwrap(),
        Some(accepted)
    );
    assert!(normalize_display_name(Some(&"测".repeat(129))).is_err());
}
