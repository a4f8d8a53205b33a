use routescope::addr::{IpAddress, Ipv4Address};
use routescope::conntrack::{
    entry_from_kernel_flow, state_from_kernel, tuple_from_kernel, CachedConntrackReader,
    ConntrackReader, ConntrackSnapshot, KernelFlow, KernelProto, KernelProtocol, KernelTcpState,
    KernelTuple, NetlinkConntrackReader, NetworkTuple,
};
use routescope::dns::{normalize_mac, DnsAttributionCache, DnsObservation};
use routescope::domain::{
    floor_to_minute_ms, normalize_display_name, ConnectionState, DataTimeRange, DomainConfidence,
    DomainSource, Flow, FlowCounters, FlowDirection,
};
use routescope::paging::{device_key, FlowWindow};
use routescope::schema::migrate;
use routescope::sql::StorageError;
use routescope::storage::{
    confidence_rank, counter_from_sqlite_integer, counter_to_sqlite_integer, source_rank,
};

fn address(text: &str) -> Ipv4Address {
    Ipv4Address::parse(text).unwrap()
}

fn tuple(
    number: KernelProtocol,
    source: (&str, u16),
    destination: (&str, u16),
) -> Option<KernelTuple> {
    Some(KernelTuple {
        src: Some(IpAddress::V4(address(source.0))),
        dst: Some(IpAddress::V4(address(destination.0))),
        proto: Some(KernelProto {
            number: Some(number),
            src_port: Some(source.1),
            dst_port: Some(destination.1),
        }),
    })
}

fn connection(tcp_state: Option<KernelTcpState>, status: Option<Vec<String>>) -> KernelFlow {
    KernelFlow {
        origin: tuple(KernelProtocol::Tcp, ("10.0.0.10", 40_000), ("1.1.1.1", 443)),
        reply: tuple(KernelProtocol::Tcp, ("1.1.1.1", 443), ("203.0.113.5", 50_000)),
        tcp_state,
        status,
    }
}

#[test]
fn complete_ipv4_tuples_are_read() {
    assert_eq!(
        tuple_from_kernel(tuple(KernelProtocol::Udp, ("10.0.0.1", 53), ("10.0.0.2", 5353))),
        Some(NetworkTuple {
            protocol: 17,
            source_ip: address("10.0.0.1"),
            source_port: 53,
            destination_ip: address("10.0.0.2"),
            destination_port: 5353,
        })
    );
    assert_eq!(tuple_from_kernel(None), None);
    assert_eq!(
        tuple_from_kernel(tuple(KernelProtocol::Other, ("10.0.0.1", 1), ("10.0.0.2", 2))),
        None
    );
    let mut partial = tuple(KernelProtocol::Tcp, ("10.0.0.1", 1), ("10.0.0.2", 2)).unwrap();
    partial.src = Some(IpAddress::V6(1));
    assert_eq!(tuple_from_kernel(Some(partial)), None);
}

#[test]
fn connection_states_follow_tcp_or_the_status() {
    let states = [
        (KernelTcpState::NoState, ConnectionState::Unknown),
        (KernelTcpState::SynSent, ConnectionState::New),
        (KernelTcpState::SynRecv, ConnectionState::New),
        (KernelTcpState::SynSent2, ConnectionState::New),
        (KernelTcpState::Established, ConnectionState::Established),
        (KernelTcpState::FinWait, ConnectionState::Closing),
        (KernelTcpState::CloseWait, ConnectionState::Closing),
        (KernelTcpState::LastAck, ConnectionState::Closing),
        (KernelTcpState::TimeWait, ConnectionState::Closing),
        (KernelTcpState::Close, ConnectionState::Closed),
        (KernelTcpState::Unrecognized, ConnectionState::Unknown),
    ];
    for (kernel, expected) in states {
        assert_eq!(state_from_kernel(&connection(Some(kernel), None)), expected);
    }
    let seen = Some(vec!["StatusSeenReply".to_owned()]);
    let assured = Some(vec!["StatusSeenReply".to_owned(), "StatusAssured".to_owned()]);
    let confirmed = Some(vec!["StatusConfirmed".to_owned()]);
    assert_eq!(state_from_kernel(&connection(None, None)), ConnectionState::New);
    assert_eq!(state_from_kernel(&connection(None, seen)), ConnectionState::New);
    assert_eq!(state_from_kernel(&connection(None, assured)), ConnectionState::Established);
    assert_eq!(state_from_kernel(&connection(None, confirmed)), ConnectionState::Established);
}

#[test]
fn dumps_leave_out_what_cannot_be_read() {
    let readable = connection(Some(KernelTcpState::Established), None);
    let mut other = connection(None, None);
    other.reply = None;
    assert!(entry_from_kernel_flow(&other).is_none());
    let expected = entry_from_kernel_flow(&readable).unwrap();
    let snapshot = NetlinkConntrackReader {}.snapshot_of(&vec![other, readable]);
    assert_eq!(snapshot.entries.len(), 1);
    assert_eq!(snapshot.entries[0], expected);
}

struct CountingReader {
    reads: usize,
    fails: bool,
}

impl ConntrackReader for CountingReader {
    fn snapshot(&mut self, _now_ns: u64) -> Result<ConntrackSnapshot, String> {
        self.reads += 1;
        if self.fails {
            Err("no table".to_owned())
        } else {
            Ok(ConntrackSnapshot::from_entries(Vec::new()))
        }
    }
}

#[test]
fn snapshots_are_kept_for_the_interval() {
    let mut reader = CachedConntrackReader::new(CountingReader { reads: 0, fails: false }, 100);
    assert!(reader.snapshot(1_000).is_ok());
    assert!(reader.snapshot(1_099).is_ok());
    assert_eq!(reader.inner.reads, 1);
    assert!(reader.snapshot(1_100).is_ok());
    assert_eq!(reader.inner.reads, 2);
    reader.inner.fails = true;
    assert!(reader.snapshot(1_150).is_ok());
    assert_eq!(reader.snapshot(1_200).unwrap_err(), "no table");
    assert_eq!(reader.inner.reads, 3);
}

fn flow(mac: &str, client: &str) -> Flow {
    Flow {
        flow_id: format!("flow-{mac}"),
        first_seen: 1_000,
        last_seen: 2_000,
        protocol: "tcp".to_owned(),
        direction: FlowDirection::Bidirectional,
        lan_interface: "br-lan".to_owned(),
        wan_interface: "eth0".to_owned(),
        client_mac: mac.to_owned(),
        client_ip: client.to_owned(),
        client_port: 40_000,
        destination_ip: "93.184.216.34".to_owned(),
        destination_port: 443,
        nat_source_ip: None,
        nat_source_port: None,
        nat_destination_ip: None,
        nat_destination_port: None,
        upload_bytes: 1,
        download_bytes: 2,
        packet_count: 3,
        domain: None,
        connection_state: ConnectionState::Established,
    }
}

const FIRST: &str = "02:00:00:00:00:01";
const SECOND: &str = "02:00:00:00:00:02";

fn two_clients() -> DnsAttributionCache {
    let mut cache = DnsAttributionCache::new();
    let flows = [flow(FIRST, "10.0.0.1"), flow(SECOND, "10.0.0.2")];
    cache.learn_flow_identities(&flows, 2_000);
    for client in ["10.0.0.1", "10.0.0.2"] {
        cache.observe(DnsObservation {
            client_ip: address(client),
            domain: "example.com".to_owned(),
            target_ips: vec![address("93.184.216.34")],
            observed_at_ms: 1_500,
            ttl_secs: 60,
        });
    }
    assert_eq!(cache.binding_count(), 2);
    cache
}

fn domain_of(cache: &DnsAttributionCache, mac: &str, client: &str) -> Option<String> {
    let mut flow = flow(mac, client);
    cache.attribute_flow(&mut flow);
    flow.domain.map(|attribution| attribution.domain)
}

#[test]
fn removed_names_are_not_given_again() {
    let example = Some("example.com".to_owned());

    let mut cache = two_clients();
    cache.purge_device_data("02-00-00-00-00-01");
    assert_eq!(domain_of(&cache, FIRST, "10.0.0.1"), example);
    cache.purge_device_data(FIRST);
    assert_eq!(domain_of(&cache, FIRST, "10.0.0.1"), None);
    assert_eq!(domain_of(&cache, SECOND, "10.0.0.2"), example);

    let mut cache = two_clients();
    cache.purge_domain_data(Some(FIRST), "example.com");
    assert_eq!(domain_of(&cache, FIRST, "10.0.0.1"), None);
    assert_eq!(domain_of(&cache, SECOND, "10.0.0.2"), example);
    cache.purge_domain_data(None, "example.com");
    assert_eq!(domain_of(&cache, SECOND, "10.0.0.2"), None);

    let mut cache = two_clients();
    cache.purge_data_range(DataTimeRange { from_ms: 1_501, to_ms: 9_000 });
    assert_eq!(cache.binding_count(), 2);
    cache.purge_data_range(DataTimeRange { from_ms: 1_500, to_ms: 1_501 });
    assert_eq!(cache.binding_count(), 0);
}

#[test]
fn attributing_twice_is_attributing_once() {
    let cache = two_clients();
    let mut once = flow(FIRST, "10.0.0.1");
    assert!(cache.attribute_flow(&mut once));
    let mut twice = once.clone();
    assert!(cache.attribute_flow(&mut twice));
    assert_eq!(once, twice);
}

#[test]
fn purging_twice_is_purging_at_the_later_time() {
    let mut cache = two_clients();
    assert_eq!(cache.purge_expired(61_499), 0);
    assert_eq!(cache.purge_expired(61_500), 2);
    assert_eq!(cache.purge_expired(61_500), 0);
}

#[test]
fn normal_forms_are_stable() {
    let mac = normalize_mac(" AA:BB:CC:DD:EE:FF ").unwrap();
    assert_eq!(mac, "aa:bb:cc:dd:ee:ff");
    assert_eq!(normalize_mac(&mac), Some(mac));
    let name = normalize_display_name(Some("  TV ")).unwrap();
    assert_eq!(name.as_deref(), Some("TV"));
    assert_eq!(normalize_display_name(name.as_deref()).unwrap(), name);
    assert_eq!(device_key(" AA:BB "), device_key("aa:bb"));
    let minute = floor_to_minute_ms(-1);
    assert_eq!(minute, -60_000);
    assert_eq!(floor_to_minute_ms(minute), minute);
}

#[test]
fn stored_names_read_back() {
    for source in [DomainSource::Dns, DomainSource::Sni, DomainSource::Unknown] {
        assert_eq!(DomainSource::parse(source.as_str()), Some(source));
    }
    for confidence in [DomainConfidence::High, DomainConfidence::Low, DomainConfidence::Unknown] {
        assert_eq!(DomainConfidence::parse(confidence.as_str()), Some(confidence));
    }
    for window in [FlowWindow::Hours1, FlowWindow::Hours6, FlowWindow::Hours24] {
        assert_eq!(FlowWindow::parse(Some(window.as_str())).unwrap(), window);
    }
    assert!(confidence_rank(&DomainConfidence::High) > confidence_rank(&DomainConfidence::Low));
    assert!(source_rank(&DomainSource::Dns) > source_rank(&DomainSource::Unknown));
}

#[test]
fn counters_must_fit_where_they_are_stored() {
    assert_eq!(counter_to_sqlite_integer(7, "upload_bytes").unwrap(), 7);
    let error = counter_to_sqlite_integer(u64::MAX, "upload_bytes").unwrap_err();
    assert!(matches!(error, StorageError::InvalidCounter(_)));
    assert_eq!(counter_from_sqlite_integer(7, "upload_bytes").unwrap(), 7);
    let error = counter_from_sqlite_integer(-1, "upload_bytes").unwrap_err();
    assert!(matches!(error, StorageError::InvalidCounter(_)));
}

#[test]
fn counters_grow_by_their_difference() {
    let before = FlowCounters { upload_bytes: 10, download_bytes: 20, packet_count: 3 };
    let after = FlowCounters { upload_bytes: 15, download_bytes: 20, packet_count: 4 };
    let grown = after.delta_from(before).unwrap();
    assert_eq!(grown, FlowCounters { upload_bytes: 5, download_bytes: 0, packet_count: 1 });
    assert!(before.delta_from(after).is_err());
}

#[test]
fn older_schemas_need_more_steps() {
    assert_eq!(migrate(0).unwrap().len(), 3);
    assert_eq!(migrate(1).unwrap().len(), 2);
    assert_eq!(migrate(2).unwrap().len(), 1);
    assert_eq!(migrate(3).unwrap().len(), 0);
    assert!(matches!(migrate(4).unwrap_err(), StorageError::UnsupportedSchema(_)));
}
