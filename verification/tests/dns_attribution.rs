use routescope::addr::Ipv4Address;
use routescope::dns::{
    normalize_domain, DnsAttributionCache, DnsObservation, DnsObservationQueue,
    DnsObservationSource, MAX_PENDING_OBSERVATIONS,
};
use routescope::domain::{
    ConnectionState, DomainAttribution, DomainConfidence, DomainSource, Flow, FlowDirection,
};

fn ip(text: &str) -> Ipv4Address {
    Ipv4Address::parse(text).unwrap()
}

fn sample_flow(
    flow_id: &str,
    first_seen: i64,
    last_seen: i64,
    client_ip: &str,
    destination_ip: &str,
) -> Flow {
    Flow {
        flow_id: flow_id.to_owned(),
        first_seen,
        last_seen,
        protocol: "tcp".to_owned(),
        direction: FlowDirection::Bidirectional,
        lan_interface: "br-lan".to_owned(),
        wan_interface: "eth0".to_owned(),
        client_mac: "aa:bb:cc:dd:ee:ff".to_owned(),
        client_ip: client_ip.to_owned(),
        client_port: 40_000,
        destination_ip: destination_ip.to_owned(),
        destination_port: 443,
        nat_source_ip: None,
        nat_source_port: None,
        nat_destination_ip: None,
        nat_destination_port: None,
        upload_bytes: 1_024,
        download_bytes: 2_048,
        packet_count: 10,
        domain: None,
        connection_state: ConnectionState::Established,
    }
}

fn observation(domain: &str, observed_at_ms: i64, ttl_secs: u32) -> DnsObservation {
    DnsObservation {
        client_ip: ip("192.168.1.10"),
        domain: domain.to_owned(),
        target_ips: vec![ip("93.184.216.34")],
        observed_at_ms,
        ttl_secs,
    }
}

fn learn_identity(
    cache: &mut DnsAttributionCache,
    flow_id: &str,
    client_ip: &str,
    client_mac: &str,
    first_seen: i64,
    last_seen: i64,
) {
    let mut flow = sample_flow(flow_id, first_seen, last_seen, client_ip, "192.0.2.1");
    flow.client_mac = client_mac.to_owned();
    assert_eq!(cache.learn_flow_identities(&[flow], last_seen), 1);
}

struct FixedDnsSource {
    observations: Vec<DnsObservation>,
}

impl DnsObservationSource for FixedDnsSource {
    fn source_name(&self) -> &'static str {
        "fixed-test-dns"
    }

    fn collect(&mut self) -> Result<Vec<DnsObservation>, String> {
        Ok(self.observations.clone())
    }
}

#[test]
fn collect_from_ingests_observations_from_source() {
    let mut cache = DnsAttributionCache::new();
    learn_identity(
        &mut cache,
        "dns-flow",
        "192.168.1.10",
        "aa:bb:cc:dd:ee:ff",
        500,
        1_500,
    );
    let mut source = FixedDnsSource {
        observations: vec![observation("example.com", 1_000, 60)],
    };

    assert_eq!(source.source_name(), "fixed-test-dns");
    assert_eq!(cache.collect_from(&mut source, 1_500).unwrap(), 1);

    let mut flow =
        sample_flow("flow-source", 2_000, 3_000, "192.168.1.10", "93.184.216.34");
    assert!(cache.attribute_flow(&mut flow));
}

#[test]
fn observation_queue_drains_each_batch_once() {
    let mut queue = DnsObservationQueue::new();
    queue.push(observation("example.com", 1_000, 60));

    let first = queue.collect().unwrap();
    let second = queue.collect().unwrap();

    assert_eq!(first.len(), 1);
    assert!(second.is_empty());
    assert_eq!(queue.source_name(), "dns-proxy");
}

#[test]
fn exact_client_and_target_match_adds_high_confidence_dns_attribution() {
    let mut cache = DnsAttributionCache::new();
    learn_identity(
        &mut cache,
        "dns-flow",
        "192.168.1.10",
        "AA:BB:CC:DD:EE:FF",
        500,
        1_500,
    );
    assert_eq!(cache.observe(observation("Example.COM.", 1_000, 60)), 1);

    let mut flow = sample_flow("flow-1", 2_000, 3_000, "192.168.1.10", "93.184.216.34");

    assert!(cache.attribute_flow(&mut flow));
    assert_eq!(
        flow.domain,
        Some(DomainAttribution {
            domain: "example.com".to_owned(),
            source: DomainSource::Dns,
            confidence: DomainConfidence::High,
            associated_at: 1_000,
            expires_at: Some(61_000),
        })
    );
}

#[test]
fn attribute_flows_returns_number_of_successful_matches() {
    let mut cache = DnsAttributionCache::new();
    learn_identity(
        &mut cache,
        "dns-flow",
        "192.168.1.10",
        "aa:bb:cc:dd:ee:ff",
        500,
        1_500,
    );
    cache.observe(observation("example.com", 1_000, 60));

    let mut flows = vec![
        sample_flow("flow-match", 2_000, 3_000, "192.168.1.10", "93.184.216.34"),
        sample_flow("flow-miss", 2_000, 3_000, "192.168.1.11", "93.184.216.34"),
    ];
    flows[1].client_mac = "aa:bb:cc:dd:ee:00".to_owned();

    assert_eq!(cache.attribute_flows(&mut flows), 1);
    assert!(flows[0].domain.is_some());
    assert!(flows[1].domain.is_none());
}

#[test]
fn expired_binding_is_not_used() {
    let mut cache = DnsAttributionCache::new();
    learn_identity(
        &mut cache,
        "dns-flow",
        "192.168.1.10",
        "aa:bb:cc:dd:ee:ff",
        500,
        1_500,
    );
    cache.observe(observation("example.com", 1_000, 1));

    let mut flow = sample_flow(
        "flow-expired",
        2_000,
        2_500,
        "192.168.1.10",
        "93.184.216.34",
    );

    assert!(!cache.attribute_flow(&mut flow));
    assert!(flow.domain.is_none());
}

#[test]
fn ambiguous_shared_ip_is_left_unattributed() {
    let mut cache = DnsAttributionCache::new();
    learn_identity(
        &mut cache,
        "dns-flow",
        "192.168.1.10",
        "aa:bb:cc:dd:ee:ff",
        500,
        1_500,
    );
    cache.observe(observation("first.example", 1_000, 60));
    cache.observe(observation("second.example", 1_000, 60));

    let mut flow = sample_flow(
        "flow-ambiguous",
        2_000,
        3_000,
        "192.168.1.10",
        "93.184.216.34",
    );

    assert!(!cache.attribute_flow(&mut flow));
    assert!(flow.domain.is_none());
}

#[test]
fn dns_attribution_replaces_existing_low_confidence_sni() {
    let mut cache = DnsAttributionCache::new();
    learn_identity(
        &mut cache,
        "dns-flow",
        "192.168.1.10",
        "aa:bb:cc:dd:ee:ff",
        500,
        1_500,
    );
    cache.observe(observation("example.com", 1_000, 60));

    let mut flow =
        sample_flow("flow-sni", 2_000, 3_000, "192.168.1.10", "93.184.216.34");
    flow.domain = Some(DomainAttribution {
        domain: "unknown-cdn.example".to_owned(),
        source: DomainSource::Sni,
        confidence: DomainConfidence::Low,
        associated_at: 2_000,
        expires_at: None,
    });

    assert!(cache.attribute_flow(&mut flow));
    assert_eq!(flow.domain.as_ref().unwrap().domain, "example.com");
    assert_eq!(
        flow.domain.as_ref().unwrap().confidence,
        DomainConfidence::High
    );
}

#[test]
fn purge_expired_removes_only_expired_bindings() {
    let mut cache = DnsAttributionCache::new();
    learn_identity(
        &mut cache,
        "dns-flow",
        "192.168.1.10",
        "aa:bb:cc:dd:ee:ff",
        500,
        1_500,
    );
    let mut expired_observation = observation("expired.example", 1_000, 1);
    expired_observation.target_ips = vec![ip("203.0.113.10")];
    cache.observe(expired_observation);
    cache.observe(observation("active.example", 1_000, 60));

    assert_eq!(cache.purge_expired(2_000), 1);

    let mut expired_flow =
        sample_flow("flow-expired", 1_500, 1_900, "192.168.1.10", "203.0.113.10");
    assert!(!cache.attribute_flow(&mut expired_flow));

    let mut active_flow =
        sample_flow("flow-active", 2_000, 3_000, "192.168.1.10", "93.184.216.34");
    assert!(cache.attribute_flow(&mut active_flow));
    assert_eq!(
        active_flow.domain.as_ref().unwrap().domain,
        "active.example"
    );
}

#[test]
fn invalid_domain_and_zero_ttl_are_ignored() {
    let mut cache = DnsAttributionCache::new();

    assert_eq!(cache.observe(observation("..", 1_000, 60)), 0);
    assert_eq!(cache.observe(observation("example.com", 1_000, 0)), 0);
}

#[test]
fn domain_names_are_normalized() {
    assert_eq!(
        normalize_domain("  ExAmPle.COM. "),
        Some("example.com".to_owned())
    );
    assert_eq!(normalize_domain("example..com"), None);
    assert_eq!(normalize_domain(""), None);
}

#[test]
fn observation_waits_for_identity_and_resolves_when_flow_arrives() {
    let mut cache = DnsAttributionCache::new();
    assert_eq!(cache.observe(observation("example.com", 1_000, 60)), 0);
    assert_eq!(cache.pending_count(), 1);

    learn_identity(
        &mut cache,
        "dns-flow",
        "192.168.1.10",
        "aa:bb:cc:dd:ee:ff",
        500,
        1_500,
    );
    assert_eq!(cache.pending_count(), 0);

    let mut flow =
        sample_flow("flow-after", 2_000, 3_000, "192.168.1.10", "93.184.216.34");
    assert!(cache.attribute_flow(&mut flow));
    assert_eq!(flow.domain.as_ref().unwrap().domain, "example.com");
}

#[test]
fn identity_match_accepts_only_the_five_second_post_flow_grace() {
    let mut cache = DnsAttributionCache::new();
    learn_identity(
        &mut cache,
        "dns-flow",
        "192.168.1.10",
        "aa:bb:cc:dd:ee:ff",
        500,
        1_000,
    );

    assert_eq!(
        cache.observe(observation("within-grace.example", 6_000, 60)),
        1
    );
    assert_eq!(
        cache.observe(observation("outside-grace.example", 6_001, 60)),
        0
    );
    assert_eq!(cache.pending_count(), 1);
}

#[test]
fn dhcp_ip_reuse_does_not_leak_binding_to_new_mac() {
    let mut cache = DnsAttributionCache::new();
    learn_identity(
        &mut cache,
        "old-dns-flow",
        "192.168.1.10",
        "aa:bb:cc:dd:ee:01",
        8_000,
        10_000,
    );
    assert_eq!(
        cache.observe(observation("old-owner.example", 9_000, 60)),
        1
    );

    let mut old_flow =
        sample_flow("old-owner", 9_500, 11_000, "192.168.1.10", "93.184.216.34");
    old_flow.client_mac = "aa:bb:cc:dd:ee:01".to_owned();
    assert!(cache.attribute_flow(&mut old_flow));

    let mut new_flow =
        sample_flow("new-owner", 20_000, 21_000, "192.168.1.10", "93.184.216.34");
    new_flow.client_mac = "aa:bb:cc:dd:ee:02".to_owned();
    assert!(!cache.attribute_flow(&mut new_flow));
    assert!(new_flow.domain.is_none());
}

#[test]
fn overlapping_mac_identities_keep_observation_unresolved_until_expiry() {
    let mut cache = DnsAttributionCache::new();
    learn_identity(
        &mut cache,
        "dns-flow-a",
        "192.168.1.10",
        "aa:bb:cc:dd:ee:01",
        500,
        1_500,
    );
    learn_identity(
        &mut cache,
        "dns-flow-b",
        "192.168.1.10",
        "aa:bb:cc:dd:ee:02",
        500,
        1_500,
    );

    assert_eq!(
        cache.observe(observation("ambiguous.example", 1_000, 60)),
        0
    );
    assert_eq!(cache.pending_count(), 1);
    assert_eq!(cache.purge_expired(61_000), 1);
    assert_eq!(cache.pending_count(), 0);
}

#[test]
fn same_target_ip_is_isolated_by_stable_mac_identity() {
    let mut cache = DnsAttributionCache::new();
    learn_identity(
        &mut cache,
        "dns-flow-a",
        "192.168.1.10",
        "aa:bb:cc:dd:ee:01",
        500,
        1_500,
    );
    learn_identity(
        &mut cache,
        "dns-flow-b",
        "192.168.1.11",
        "aa:bb:cc:dd:ee:02",
        500,
        1_500,
    );
    assert_eq!(cache.observe(observation("device-a.example", 1_000, 60)), 1);
    let mut device_b_observation = observation("device-b.example", 1_000, 60);
    device_b_observation.client_ip = ip("192.168.1.11");
    assert_eq!(cache.observe(device_b_observation), 1);

    let mut flow_a =
        sample_flow("flow-a", 2_000, 3_000, "192.168.1.10", "93.184.216.34");
    flow_a.client_mac = "aa:bb:cc:dd:ee:01".to_owned();
    let mut flow_b =
        sample_flow("flow-b", 2_000, 3_000, "192.168.1.11", "93.184.216.34");
    flow_b.client_mac = "aa:bb:cc:dd:ee:02".to_owned();

    assert!(cache.attribute_flow(&mut flow_a));
    assert!(cache.attribute_flow(&mut flow_b));
    assert_eq!(flow_a.domain.as_ref().unwrap().domain, "device-a.example");
    assert_eq!(flow_b.domain.as_ref().unwrap().domain, "device-b.example");
}

#[test]
fn pending_observation_queue_is_bounded_and_evicts_oldest() {
    let mut cache = DnsAttributionCache::new();
    let mut source = FixedDnsSource {
        observations: (0..=MAX_PENDING_OBSERVATIONS)
            .map(|index| observation(&format!("{index}.example"), 1_000, 600))
            .collect(),
    };
    assert_eq!(cache.collect_from(&mut source, 1_000).unwrap(), 0);

    assert_eq!(cache.pending_count(), MAX_PENDING_OBSERVATIONS);
    assert_eq!(cache.pending_domain(0), "1.example");
    assert_eq!(cache.pending_domain(MAX_PENDING_OBSERVATIONS - 1), "4096.example");
}

#[test]
fn stale_source_observation_is_not_resolved_after_pending_deadline() {
    let mut cache = DnsAttributionCache::new();
    learn_identity(
        &mut cache,
        "dns-flow",
        "192.168.1.10",
        "aa:bb:cc:dd:ee:ff",
        500,
        1_500,
    );
    let mut source = FixedDnsSource {
        observations: vec![observation("stale.example", 1_000, 600)],
    };

    assert_eq!(cache.collect_from(&mut source, 301_001).unwrap(), 0);
    assert_eq!(cache.binding_count(), 0);
}

#[test]
fn unresolved_observation_and_idle_identity_are_cleaned_after_five_minutes() {
    let mut cache = DnsAttributionCache::new();
    learn_identity(
        &mut cache,
        "unrelated-flow",
        "192.168.1.11",
        "aa:bb:cc:dd:ee:02",
        500,
        1_500,
    );
    assert_eq!(cache.observe(observation("pending.example", 1_000, 600)), 0);

    assert_eq!(cache.purge_expired(301_501), 2);
    assert_eq!(cache.pending_count(), 0);
    assert_eq!(cache.identity_count(), 0);
}
