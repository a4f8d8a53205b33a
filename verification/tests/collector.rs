use routescope::addr::Ipv4Address;
use routescope::collector::{
    enrich_batch, source_failure, validate_batch, CollectionResult, CollectorError,
    CollectorHealth, CollectorHealthState, ConntrackEnrichedCollector, DnsAttributionCollector,
    FlowCollector,
};
use routescope::conntrack::{ConntrackEntry, ConntrackReader, ConntrackSnapshot, NetworkTuple};
use routescope::domain::{ConnectionState, CounterReset, Flow, FlowCounters};
use routescope::simulator::SimulatedCollector;
use routescope::tc_ebpf::{
    format_mac, monotonic_ns, monotonic_timestamp_ms, EbpfFlowKey, EbpfFlowValue, TcEbpfCollector,
    FLOW_IDLE_TIMEOUT_NS,
};

const START_MS: i64 = 1_700_000_000_000;

fn ip(text: &str) -> Ipv4Address {
    Ipv4Address::parse(text).unwrap()
}

struct FixedConntrackReader {
    entries: Option<Vec<ConntrackEntry>>,
}

impl ConntrackReader for FixedConntrackReader {
    fn snapshot(&mut self, _now_ns: u64) -> Result<ConntrackSnapshot, String> {
        match &self.entries {
            Some(entries) => Ok(ConntrackSnapshot::from_entries(entries.clone())),
            None => Err("permission denied".to_owned()),
        }
    }
}

fn conntrack_entry_for(flow: &Flow) -> ConntrackEntry {
    let original = NetworkTuple::from_flow(flow).expect("simulated flow has a tuple");
    ConntrackEntry {
        original,
        reply: NetworkTuple {
            protocol: original.protocol,
            source_ip: original.destination_ip,
            source_port: original.destination_port,
            destination_ip: ip("198.51.100.10"),
            destination_port: 50_001,
        },
        state: ConnectionState::Established,
    }
}

#[test]
fn simulator_keeps_flow_ids_and_increments_counters() {
    let mut collector = SimulatedCollector::new(START_MS, 1);
    let first = collector.collect(START_MS, 0).unwrap();
    let second = collector.collect(START_MS, 0).unwrap();

    assert_eq!(first.flows.len(), 2);
    assert!(first.flows.iter().all(|flow| flow.validate().is_ok()));
    assert_eq!(first.flows[0].flow_id, second.flows[0].flow_id);
    assert!(second.flows[0].upload_bytes > first.flows[0].upload_bytes);
}

#[test]
fn simulator_timestamps_follow_configured_interval() {
    let start_ms = START_MS;
    let mut collector = SimulatedCollector::with_interval_secs(1, start_ms, 1);

    let first = collector.collect(start_ms, 0).unwrap();
    let second = collector.collect(start_ms, 0).unwrap();

    assert_eq!(first.flows[0].last_seen, start_ms);
    assert_eq!(second.flows[0].last_seen, start_ms + 1_000);
}

#[test]
fn simulator_writes_the_documented_flows() {
    let mut collector = SimulatedCollector::new(START_MS, 7);
    let batch = collector.collect(1_000, 0).unwrap();
    assert_eq!(batch.observed_at_ms, 1_000);
    assert_eq!(batch.health.state, CollectorHealthState::Healthy);
    assert_eq!(batch.health.flows_seen, 2);
    assert_eq!(batch.health.flows_emitted, 2);
    assert_eq!(batch.flows[0].flow_id, "sim:v1:7:client-a-https");
    assert_eq!(batch.flows[1].flow_id, "sim:v1:7:client-b-https");
    assert_eq!(batch.flows[0].upload_bytes, 1_024);
    assert_eq!(batch.flows[1].download_bytes, 16_384);
    let domain = batch.flows[0].domain.as_ref().unwrap();
    assert_eq!(domain.expires_at, Some(START_MS + 3_600_000));
    assert_eq!(collector.source_name(), "simulator");

    let later = collector.collect(2_000, 0).unwrap();
    assert_eq!(later.flows[0].upload_bytes, 2_048);
    assert_eq!(later.flows[0].last_seen, START_MS + 5_000);
    assert_eq!(later.flows[0].first_seen, START_MS);
}

#[test]
fn simulator_interval_is_at_least_a_second() {
    assert_eq!(SimulatedCollector::with_interval_secs(0, 0, 1).step_ms, 1_000);
    assert_eq!(SimulatedCollector::with_interval_secs(u64::MAX, 0, 1).step_ms, i64::MAX);
}

#[test]
fn invalid_tc_ebpf_configuration_is_unhealthy() {
    let failure = TcEbpfCollector::new(String::new(), "eth0".to_owned(), 1, 5)
        .err()
        .expect("empty LAN interface must be rejected");

    assert_eq!(failure.health.state, CollectorHealthState::Unhealthy);

    assert!(matches!(
        failure.error,
        CollectorError::SourceUnavailable { .. }
    ));
    assert_eq!(
        failure.error.message(),
        "tc-ebpf source unavailable: LAN interface must not be empty"
    );
    let wan = TcEbpfCollector::new("br-lan".to_owned(), "  ".to_owned(), 1, 5).err().unwrap();
    assert_eq!(
        wan.health.last_error.as_deref(),
        Some("tc-ebpf source unavailable: WAN interface must not be empty")
    );
    assert_eq!(wan.health.observed_at_ms, 5);
}

#[test]
fn conntrack_enrichment_adds_nat_and_state_without_changing_flow_id() {
    let mut base = SimulatedCollector::new(START_MS, 1);
    let first_batch = base.collect(START_MS, 0).unwrap();
    let first_flow_id = first_batch.flows[0].flow_id.clone();
    let mut collector = ConntrackEnrichedCollector::new(
        base,
        FixedConntrackReader {
            entries: Some(vec![conntrack_entry_for(&first_batch.flows[0])]),
        },
    );

    let batch = collector.collect(START_MS, 0).unwrap();
    let flow = batch
        .flows
        .iter()
        .find(|flow| flow.flow_id == first_flow_id)
        .unwrap();
    assert_eq!(flow.nat_source_ip.as_deref(), Some("198.51.100.10"));
    assert_eq!(flow.nat_source_port, Some(50_001));
    assert_eq!(flow.nat_destination_ip.as_deref(), Some("93.184.216.34"));
    assert_eq!(flow.nat_destination_port, Some(443));
    assert_eq!(flow.connection_state, ConnectionState::Established);
    assert_eq!(collector.source_name(), "tc-ebpf+conntrack");
}

#[test]
fn conntrack_failure_keeps_tc_flows_and_marks_batch_degraded() {
    let base = SimulatedCollector::new(START_MS, 1);
    let mut collector =
        ConntrackEnrichedCollector::new(base, FixedConntrackReader { entries: None });

    let batch = collector.collect(START_MS, 0).unwrap();
    assert_eq!(batch.flows.len(), 2);
    assert_eq!(batch.health.flows_emitted, 2);
    assert_eq!(batch.health.state, CollectorHealthState::Degraded);
    assert_eq!(
        batch.health.last_error.as_deref(),
        Some("permission denied")
    );
}

#[test]
fn counter_decrease_is_rejected() {
    let previous = FlowCounters {
        upload_bytes: 100,
        download_bytes: 200,
        packet_count: 10,
    };

    let current = FlowCounters {
        upload_bytes: 90,
        download_bytes: 250,
        packet_count: 11,
    };

    assert!(current.delta_from(previous).is_err());
}

#[test]
fn enrichment_fills_only_what_the_table_knows() {
    let mut base = SimulatedCollector::new(START_MS, 1);
    let mut batch = base.collect(START_MS, 0).unwrap();
    for flow in &mut batch.flows {
        flow.nat_source_ip = None;
        flow.nat_source_port = None;
        flow.nat_destination_ip = None;
        flow.nat_destination_port = None;
        flow.connection_state = ConnectionState::Unknown;
    }
    let entry = conntrack_entry_for(&batch.flows[0]);
    let upload = batch.flows[0].upload_bytes;
    let enriched = enrich_batch(batch, Ok(ConntrackSnapshot::from_entries(vec![entry])));
    assert_eq!(enriched.flows[0].nat_source_port, Some(50_001));
    assert_eq!(enriched.flows[0].connection_state, ConnectionState::Established);
    assert_eq!(enriched.flows[0].upload_bytes, upload);
    assert_eq!(enriched.flows[1].nat_source_port, None);
    assert_eq!(enriched.flows[1].connection_state, ConnectionState::Unknown);
}

fn simulated_flows() -> Vec<Flow> {
    SimulatedCollector::new(START_MS, 1).collect(START_MS, 0).unwrap().flows
}

fn message_of(result: CollectionResult) -> String {
    let failure = result.err().unwrap();
    assert_eq!(failure.health.state, CollectorHealthState::Degraded);
    assert_eq!(failure.health.flows_seen, 2);
    assert_eq!(failure.health.flows_emitted, 0);
    assert_eq!(failure.health.last_error, Some(failure.error.message()));
    failure.error.message()
}

#[test]
fn batches_with_a_repeated_identity_are_refused() {
    let mut flows = simulated_flows();
    flows[1].flow_id = flows[0].flow_id.clone();
    assert_eq!(
        message_of(validate_batch("test", flows, 1)),
        "test emitted duplicate flow_id sim:v1:1:client-a-https"
    );
}

#[test]
fn batches_with_an_invalid_flow_are_refused() {
    let mut flows = simulated_flows();
    flows[1].client_mac.clear();
    assert_eq!(
        message_of(validate_batch("test", flows, 1)),
        "test produced invalid flow sim:v1:1:client-b-https: client_mac must not be empty"
    );
}

#[test]
fn collector_errors_describe_themselves() {
    let reset = CollectorError::CounterReset {
        source: "test",
        flow_id: "f".to_owned(),
        reset: CounterReset {
            previous: FlowCounters { upload_bytes: 2, download_bytes: 0, packet_count: 0 },
            current: FlowCounters { upload_bytes: 1, download_bytes: 0, packet_count: 0 },
        },
    };
    assert!(reset.message().starts_with("test counter reset for flow f: "));
    let failure = source_failure("test", "gone", 9);
    assert_eq!(failure.error.message(), "test source unavailable: gone");
    assert_eq!(failure.health, CollectorHealth::unhealthy(9, &failure.error));
}

#[test]
fn dns_attribution_collector_has_no_source() {
    let mut collector = DnsAttributionCollector {};
    let failure = collector.collect(3, 0).err().unwrap();
    assert_eq!(
        failure.error.message(),
        "dns-attribution source unavailable: collector is not implemented"
    );
    assert_eq!(collector.source_name(), "dns-attribution");
}

fn key(port: u16) -> EbpfFlowKey {
    EbpfFlowKey {
        client_mac: [0xaa, 0xbb, 0xcc, 0, 1, 2],
        protocol: 6,
        client_ip: 0xc0a8_010a,
        destination_ip: 0x5db8_d822,
        client_port: port,
        destination_port: 443,
    }
}

fn value(first_seen_ns: u64, last_seen_ns: u64) -> EbpfFlowValue {
    EbpfFlowValue {
        first_seen_ns,
        last_seen_ns,
        upload_bytes: 10,
        download_bytes: 20,
        packet_count: 3,
    }
}

fn tc_collector() -> TcEbpfCollector {
    TcEbpfCollector::new("br-lan".to_owned(), "eth0".to_owned(), 4, 0).ok().unwrap()
}

#[test]
fn kernel_entries_become_flows() {
    let entries = vec![(key(40_000), value(0x2000_0000, 0x3000_0000))];
    let (idle, result) = tc_collector().collect_entries(&entries, 0x4000_0000, 10_000);
    assert!(idle.is_empty());
    let flow = &result.ok().unwrap().flows[0];
    assert_eq!(
        flow.flow_id,
        "tc:v1:4:20000000:aa:bb:cc:00:01:02:6:3232235786:40000:1572395042:443"
    );
    assert_eq!(flow.client_ip, "192.168.1.10");
    assert_eq!(flow.destination_ip, "93.184.216.34");
    assert_eq!(flow.client_mac, "aa:bb:cc:00:01:02");
    assert_eq!(flow.protocol, "tcp");
    assert_eq!(flow.last_seen, 10_000 - 268);
    assert_eq!(flow.first_seen, 10_000 - 536);
    assert_eq!(flow.lan_interface, "br-lan");
    assert_eq!(flow.wan_interface, "eth0");
    assert_eq!(flow.domain, None);
    assert_eq!(flow.connection_state, ConnectionState::Unknown);
    assert_eq!(tc_collector().source_name(), "tc-ebpf");
}

#[test]
fn idle_kernel_entries_are_dropped() {
    let now = FLOW_IDLE_TIMEOUT_NS + 10;
    let entries = vec![(key(1), value(1, 9)), (key(2), value(1, 10))];
    let (idle, result) = tc_collector().collect_entries(&entries, now, 0);
    assert_eq!(idle, vec![key(1)]);
    let flows = result.ok().unwrap().flows;
    assert_eq!(flows.len(), 1);
    assert_eq!(flows[0].client_port, 2);
}

#[test]
fn protocols_and_addresses_are_named() {
    let mut udp = key(1);
    udp.protocol = 17;
    let mut other = key(2);
    other.protocol = 1;
    let entries = vec![(udp, value(1, 2)), (other, value(1, 2))];
    let flows = tc_collector().collect_entries(&entries, 3, 0).1.ok().unwrap().flows;
    assert_eq!(flows[0].protocol, "udp");
    assert_eq!(flows[1].protocol, "unknown");
    assert_ne!(flows[0].flow_id, flows[1].flow_id);
    assert_eq!(format_mac([0, 1, 2, 0xfd, 0xfe, 0xff]), "00:01:02:fd:fe:ff");
}

#[test]
fn clocks_are_read_within_their_limits() {
    assert_eq!(monotonic_ns(2, 5), Ok(2_000_000_005));
    assert_eq!(monotonic_ns(-1, 0), Err("monotonic seconds are negative"));
    assert_eq!(monotonic_ns(0, -1), Err("monotonic nanoseconds are negative"));
    assert_eq!(monotonic_ns(i64::MAX, 0), Err("monotonic timestamp overflowed u64"));
    assert_eq!(monotonic_timestamp_ms(5_000_000, 2_000_000, 100), 97);
    assert_eq!(monotonic_timestamp_ms(2_000_000, 5_000_000, 100), 100);
    assert_eq!(monotonic_timestamp_ms(u64::MAX, 0, i64::MIN + 1), i64::MIN);
}
