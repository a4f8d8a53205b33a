use routescope::addr::Ipv4Address;
use routescope::conntrack::{
    Association, ConntrackEntry, ConntrackSnapshot, NatMapping, NetworkTuple,
};
use routescope::domain::{ConnectionState, Flow, FlowDirection};

fn ip(text: &str) -> Ipv4Address {
    Ipv4Address::parse(text).unwrap()
}

fn flow() -> Flow {
    Flow {
        flow_id: "tc-flow-1".into(),
        first_seen: 1_000,
        last_seen: 2_000,
        protocol: "tcp".into(),
        direction: FlowDirection::Bidirectional,
        lan_interface: "br-lan".into(),
        wan_interface: "wan0".into(),
        client_mac: "02:00:00:00:00:0a".into(),
        client_ip: "10.0.0.10".into(),
        client_port: 40_000,
        destination_ip: "10.0.2.2".into(),
        destination_port: 8080,
        nat_source_ip: None,
        nat_source_port: None,
        nat_destination_ip: None,
        nat_destination_port: None,
        upload_bytes: 100,
        download_bytes: 200,
        packet_count: 4,
        domain: None,
        connection_state: ConnectionState::Unknown,
    }
}

fn entry(source_port: u16, translated_port: u16) -> ConntrackEntry {
    ConntrackEntry {
        original: NetworkTuple {
            protocol: 6,
            source_ip: ip("10.0.0.10"),
            source_port,
            destination_ip: ip("10.0.2.2"),
            destination_port: 8080,
        },
        reply: NetworkTuple {
            protocol: 6,
            source_ip: ip("10.0.2.2"),
            source_port: 8080,
            destination_ip: ip("10.0.2.1"),
            destination_port: translated_port,
        },
        state: ConnectionState::Established,
    }
}

#[test]
fn associates_snat_entry_by_original_tuple() {
    let snapshot = ConntrackSnapshot::from_entries(vec![entry(40_000, 50_000)]);
    let association = snapshot.associate(&flow());

    let Association::Matched(entry) = association else {
        panic!("expected a conntrack match");
    };
    assert_eq!(
        entry.nat_mapping(),
        Some(NatMapping {
            source_ip: ip("10.0.2.1"),
            source_port: 50_000,
            destination_ip: ip("10.0.2.2"),
            destination_port: 8080,
        })
    );
}

#[test]
fn direct_entry_has_no_nat_mapping() {
    let mut direct = entry(40_000, 40_000);
    direct.reply.destination_ip = direct.original.source_ip;
    let snapshot = ConntrackSnapshot::from_entries(vec![direct.clone()]);

    assert_eq!(direct.nat_mapping(), None);
    assert!(matches!(
        snapshot.associate(&flow()),
        Association::Matched(_)
    ));
}

#[test]
fn unmatched_tuple_does_not_guess_nat() {
    let mut other = flow();
    other.client_port = 40_001;
    let snapshot = ConntrackSnapshot::from_entries(vec![entry(40_000, 50_000)]);

    assert_eq!(snapshot.associate(&other), Association::Unmatched);
}

#[test]
fn multiple_entries_for_same_tuple_are_ambiguous() {
    let snapshot =
        ConntrackSnapshot::from_entries(vec![entry(40_000, 50_000), entry(40_000, 50_001)]);

    assert_eq!(snapshot.associate(&flow()), Association::Ambiguous);
}

#[test]
fn reply_tuple_is_indexed_without_changing_original_mapping() {
    let entry = entry(40_000, 50_000);
    let mut reply_flow = flow();
    reply_flow.client_ip = "10.0.2.2".into();
    reply_flow.client_port = 8080;
    reply_flow.destination_ip = "10.0.2.1".into();
    reply_flow.destination_port = 50_000;
    let snapshot = ConntrackSnapshot::from_entries(vec![entry]);

    assert!(matches!(
        snapshot.associate(&reply_flow),
        Association::Matched(_)
    ));
}
