use hickory_proto::op::{Message, OpCode, Query};
use hickory_proto::rr::rdata::{A, AAAA};
use hickory_proto::rr::{Name, RData, Record, RecordType};
use routescope::addr::{IpAddress, Ipv4Address, SocketAddress};
use routescope::dns::{DnsObservationQueue, DnsObservationSource};
use routescope::dns_message::{DnsMessage, DnsRecord};
use routescope::dns_proxy::{
    answer_length, answer_prefix, any_addr_for, observe_messages, parse_dns_observations,
    query_length, query_prefix, record_observations,
};

fn ip(text: &str) -> Ipv4Address {
    Ipv4Address::parse(text).unwrap()
}

fn client() -> IpAddress {
    IpAddress::V4(ip("192.168.1.10"))
}

fn name() -> Name {
    Name::from_ascii("Example.COM.").unwrap()
}

fn dns_packets() -> (Vec<u8>, Vec<u8>) {
    let query = Query::query(name(), RecordType::A);
    let mut request = Message::query();
    request.add_query(query);

    let mut response = Message::response(request.metadata.id, request.metadata.op_code);
    response.add_query(request.queries[0].clone());
    response.add_answer(Record::from_rdata(
        name(),
        60,
        RData::A(A::new(93, 184, 216, 34)),
    ));

    (request.to_vec().unwrap(), response.to_vec().unwrap())
}

fn request_metadata_op_code(packet: &[u8]) -> OpCode {
    Message::from_vec(packet).unwrap().metadata.op_code
}

#[test]
fn parses_ipv4_answers_into_dns_observations() {
    let (request, response) = dns_packets();
    let observations = parse_dns_observations(client(), &request, &response, 1_000);

    assert_eq!(observations.len(), 1);
    assert_eq!(observations[0].domain, "Example.COM.");
    assert_eq!(observations[0].ttl_secs, 60);
    assert_eq!(observations[0].target_ips, vec![ip("93.184.216.34")]);
}

#[test]
fn ignores_ipv6_clients_and_responses_without_ipv4_answers() {
    let (request, response) = dns_packets();
    assert!(parse_dns_observations(IpAddress::V6(1), &request, &response, 1_000).is_empty());

    let mut no_answer = Message::response(1, request_metadata_op_code(&request));
    no_answer.add_query(Message::from_vec(&request).unwrap().queries[0].clone());
    assert!(
        parse_dns_observations(client(), &request, &no_answer.to_vec().unwrap(), 1_000).is_empty()
    );
}

#[test]
fn answers_are_gathered_once_with_the_shortest_time() {
    let (request, _) = dns_packets();
    let mut response = Message::response(1, request_metadata_op_code(&request));
    for (address, ttl) in [([1, 2, 3, 4], 90), ([5, 6, 7, 8], 30), ([1, 2, 3, 4], 60)] {
        let [a, b, c, d] = address;
        response.add_answer(Record::from_rdata(name(), ttl, RData::A(A::new(a, b, c, d))));
    }
    response.add_answer(Record::from_rdata(
        name(),
        1,
        RData::AAAA(AAAA::new(0, 0, 0, 0, 0, 0, 0, 1)),
    ));
    let packet = response.to_vec().unwrap();
    let observations = parse_dns_observations(client(), &request, &packet, 7);
    assert_eq!(observations.len(), 1);
    assert_eq!(observations[0].target_ips, vec![ip("1.2.3.4"), ip("5.6.7.8")]);
    assert_eq!(observations[0].ttl_secs, 30);
    assert_eq!(observations[0].observed_at_ms, 7);
    assert_eq!(observations[0].client_ip, ip("192.168.1.10"));
}

#[test]
fn packets_that_cannot_be_read_teach_nothing() {
    let (request, response) = dns_packets();
    assert!(parse_dns_observations(client(), &request[..3], &response, 1).is_empty());
    assert!(parse_dns_observations(client(), &request, &response[..20], 1).is_empty());
    assert!(parse_dns_observations(client(), &[], &[], 1).is_empty());
}

#[test]
fn answers_that_may_not_be_kept_teach_nothing() {
    let request = Some(DnsMessage { queries: vec!["a.example.".to_owned()], answers: vec![] });
    let mut response = Some(DnsMessage {
        queries: vec![],
        answers: vec![
            DnsRecord { address: Some(ip("1.2.3.4")), ttl: 5 },
            DnsRecord { address: Some(ip("1.2.3.5")), ttl: 0 },
        ],
    });
    assert!(observe_messages(client(), &request, &response, 1).is_none());
    response.as_mut().unwrap().answers[1].address = None;
    let learned = observe_messages(client(), &request, &response, 1).unwrap();
    assert_eq!(learned.ttl_secs, 5);
    assert_eq!(learned.domain, "a.example.");
    let unasked = Some(DnsMessage { queries: vec![], answers: vec![] });
    assert!(observe_messages(client(), &unasked, &response, 1).is_none());
}

#[test]
fn what_is_learned_is_queued() {
    let (request, response) = dns_packets();
    let mut queue = DnsObservationQueue::new();
    record_observations(&mut queue, client(), &request, &response, 1_000);
    record_observations(&mut queue, IpAddress::V6(1), &request, &response, 1_000);
    assert_eq!(queue.collect().unwrap().len(), 1);
}

#[test]
fn frames_carry_their_length() {
    assert_eq!(query_length([1, 2]), Ok(258));
    assert_eq!(query_length([0, 0]), Err("DNS TCP query frame must not be empty"));
    assert_eq!(answer_length([0xff, 0xff]), Ok(65_535));
    assert_eq!(answer_length([0, 0]), Err("DNS TCP upstream returned an empty response"));
    assert_eq!(query_prefix(258), Ok([1, 2]));
    assert_eq!(query_prefix(65_536), Err("DNS TCP query exceeds 65535 bytes"));
    assert_eq!(answer_prefix(65_535), Ok([0xff, 0xff]));
    assert_eq!(answer_prefix(65_536), Err("DNS TCP response exceeds 65535 bytes"));
}

#[test]
fn upstream_sockets_use_the_same_kind_of_address() {
    let v4 = SocketAddress::V4 { ip: ip("1.1.1.1"), port: 53 };
    assert_eq!(any_addr_for(v4), SocketAddress::V4 { ip: ip("0.0.0.0"), port: 0 });
    let v6 = SocketAddress::V6 { bits: 5, port: 53, flow_info: 1, scope_id: 2 };
    assert_eq!(
        any_addr_for(v6),
        SocketAddress::V6 { bits: 0, port: 0, flow_info: 0, scope_id: 0 }
    );
}
