//! What the DNS forwarder makes of the messages that pass through it.
use vstd::prelude::*;
use vstd::string::*;

use crate::addr::{IpAddress, Ipv4Address, SocketAddress};
use crate::dns::{contains_ip, DnsObservation, DnsObservationQueue};
use crate::dns_message::{read_message, DnsMessage, DnsRecord};

verus! {

/// The largest message that is passed on.
pub const MAX_DNS_PACKET_SIZE: usize = 65_535;

/// The IPv4 addresses in the answers, each once, in the order in which they first occur.
pub open spec fn targets(answers: Seq<DnsRecord>) -> Seq<Ipv4Address>
    decreases answers.len(),
{
    if answers.len() == 0 {
        seq![]
    } else {
        let before = targets(answers.drop_last());
        match answers.last().address {
            Some(a) => if before.contains(a) {
                before
            } else {
                before.push(a)
            },
            None => before,
        }
    }
}

/// The shortest time for which an IPv4 address in the answers may be kept.
pub open spec fn shortest_ttl(answers: Seq<DnsRecord>) -> Option<u32>
    decreases answers.len(),
{
    if answers.len() == 0 {
        None
    } else {
        let before = shortest_ttl(answers.drop_last());
        let last = answers.last();
        if last.address is None {
            before
        } else {
            match before {
                Some(ttl) => if ttl <= last.ttl {
                    Some(ttl)
                } else {
                    Some(last.ttl)
                },
                None => Some(last.ttl),
            }
        }
    }
}

/// What is learned from a query and its answer: that a client was told IPv4 addresses for the name
/// that it asked for first. Nothing is learned of clients without an IPv4 address, from messages
/// that cannot be read, and from answers that may not be kept.
pub open spec fn learned_from(
    client: IpAddress,
    request: Option<crate::dns_message::MessageView>,
    response: Option<crate::dns_message::MessageView>,
    observed_at_ms: i64,
) -> Option<crate::dns::ObservationView> {
    match (client, request, response) {
        (IpAddress::V4(client_ip), Some(q), Some(a)) => {
            let ttl = shortest_ttl(a.answers);
            if q.queries.len() > 0 && ttl is Some && ttl->0 > 0 {
                Some(
                    crate::dns::ObservationView {
                        client_ip,
                        domain: q.queries[0],
                        target_ips: targets(a.answers),
                        observed_at_ms,
                        ttl_secs: ttl->0,
                    },
                )
            } else {
                None
            }
        },
        _ => None,
    }
}

/// The view of an optional message.
pub open spec fn message_view(m: Option<DnsMessage>) -> Option<
    crate::dns_message::MessageView,
> {
    match m {
        Some(m) => Some(m@),
        None => None,
    }
}

/// The view of an optional observation.
pub open spec fn observation_view(o: Option<DnsObservation>) -> Option<
    crate::dns::ObservationView,
> {
    match o {
        Some(o) => Some(o@),
        None => None,
    }
}

/// Decides what is learned from a query and its answer.
pub fn observe_messages(
    client: IpAddress,
    request: &Option<DnsMessage>,
    response: &Option<DnsMessage>,
    observed_at_ms: i64,
) -> (r: Option<DnsObservation>)
    ensures
        observation_view(r) == learned_from(
            client,
            message_view(*request),
            message_view(*response),
            observed_at_ms,
        ),
{
    let client_ip = match client {
        IpAddress::V4(client_ip) => client_ip,
        IpAddress::V6(_) => {
            return None;
        },
    };
    let request = match request {
        Some(request) => request,
        None => {
            return None;
        },
    };
    let response = match response {
        Some(response) => response,
        None => {
            return None;
        },
    };
    if request.queries.len() == 0 {
        return None;
    }
    let mut target_ips: Vec<Ipv4Address> = Vec::new();
    let mut shortest: Option<u32> = None;
    let mut i: usize = 0;
    while i < response.answers.len()
        invariant
            i <= response.answers@.len(),
            target_ips@ == targets(response.answers@.take(i as int)),
            shortest == shortest_ttl(response.answers@.take(i as int)),
        decreases response.answers@.len() - i,
    {
        let record = response.answers[i];
        proof {
            assert(response.answers@.take(i + 1).drop_last() =~= response.answers@.take(i as int));
            assert(response.answers@.take(i + 1).last() == record);
        }
        if let Some(address) = record.address {
            if !contains_ip(&target_ips, address) {
                target_ips.push(address);
            }
            shortest = match shortest {
                Some(ttl) => if ttl <= record.ttl {
                    Some(ttl)
                } else {
                    Some(record.ttl)
                },
                None => Some(record.ttl),
            };
        }
        i = i + 1;
    }
    proof {
        assert(response.answers@.take(i as int) =~= response.answers@);
    }
    match shortest {
        Some(ttl_secs) => if ttl_secs > 0 {
            Some(
                DnsObservation {
                    client_ip,
                    domain: request.queries[0].clone(),
                    target_ips,
                    observed_at_ms,
                    ttl_secs,
                },
            )
        } else {
            None
        },
        None => None,
    }
}

/// Reads a query and its answer, and decides what is learned from them.
pub fn parse_dns_observations(
    client: IpAddress,
    request: &[u8],
    response: &[u8],
    observed_at_ms: i64,
) -> (r: Vec<DnsObservation>)
    ensures
        match learned_from(
            client,
            crate::dns_message::message_of(request@),
            crate::dns_message::message_of(response@),
            observed_at_ms,
        ) {
            Some(o) => r@.len() == 1 && r@[0]@ == o,
            None => r@.len() == 0,
        },
{
    let mut out: Vec<DnsObservation> = Vec::new();
    let request = match read_message(request) {
        Ok(message) => Some(message),
        Err(_) => None,
    };
    let response = match read_message(response) {
        Ok(message) => Some(message),
        Err(_) => None,
    };
    if let Some(observation) = observe_messages(client, &request, &response, observed_at_ms) {
        out.push(observation);
    }
    out
}

/// Queues what is learned from a query and its answer.
pub fn record_observations(
    queue: &mut DnsObservationQueue,
    client: IpAddress,
    request: &[u8],
    response: &[u8],
    observed_at_ms: i64,
)
    ensures
        match learned_from(
            client,
            crate::dns_message::message_of(request@),
            crate::dns_message::message_of(response@),
            observed_at_ms,
        ) {
            Some(o) => crate::dns::observation_views(final(queue).pending@)
                == crate::dns::observation_views(old(queue).pending@).push(o),
            None => final(queue).pending@ == old(queue).pending@,
        },
{
    let ghost before = queue.pending@;
    let mut learned = parse_dns_observations(client, request, response, observed_at_ms);
    if let Some(observation) = learned.pop() {
        queue.push(observation);
        proof {
            assert(crate::dns::observation_views(queue.pending@)
                =~= crate::dns::observation_views(before).push(observation@));
        }
    }
}

/// The number in two bytes, the more significant one first.
pub open spec fn prefix_value(prefix: [u8; 2]) -> int {
    prefix@[0] * 256 + prefix@[1]
}

/// Reads how long the query of a client is. It must not be empty.
pub fn query_length(prefix: [u8; 2]) -> (r: Result<usize, &'static str>)
    ensures
        match r {
            Ok(n) => n == prefix_value(prefix) && n > 0,
            Err(e) => prefix_value(prefix) == 0 && e@
                == "DNS TCP query frame must not be empty"@,
        },
{
    let length: usize = prefix[0] as usize * 256 + prefix[1] as usize;
    if length == 0 {
        Err("DNS TCP query frame must not be empty")
    } else {
        Ok(length)
    }
}

/// Reads how long the answer of the server is. It must not be empty.
pub fn answer_length(prefix: [u8; 2]) -> (r: Result<usize, &'static str>)
    ensures
        match r {
            Ok(n) => n == prefix_value(prefix) && n > 0,
            Err(e) => prefix_value(prefix) == 0 && e@
                == "DNS TCP upstream returned an empty response"@,
        },
{
    let length: usize = prefix[0] as usize * 256 + prefix[1] as usize;
    if length == 0 {
        Err("DNS TCP upstream returned an empty response")
    } else {
        Ok(length)
    }
}

/// Makes the length that stands before a query to the server.
pub fn query_prefix(length: usize) -> (r: Result<[u8; 2], &'static str>)
    ensures
        match r {
            Ok(prefix) => prefix_value(prefix) == length,
            Err(e) => length > 65_535 && e@ == "DNS TCP query exceeds 65535 bytes"@,
        },
{
    if length > MAX_DNS_PACKET_SIZE {
        Err("DNS TCP query exceeds 65535 bytes")
    } else {
        Ok([(length / 256) as u8, (length % 256) as u8])
    }
}

/// Makes the length that stands before an answer to a client.
pub fn answer_prefix(length: usize) -> (r: Result<[u8; 2], &'static str>)
    ensures
        match r {
            Ok(prefix) => prefix_value(prefix) == length,
            Err(e) => length > 65_535 && e@ == "DNS TCP response exceeds 65535 bytes"@,
        },
{
    if length > MAX_DNS_PACKET_SIZE {
        Err("DNS TCP response exceeds 65535 bytes")
    } else {
        Ok([(length / 256) as u8, (length % 256) as u8])
    }
}

/// The address from which any port of the same kind of address as `address` can be reached.
pub fn any_addr_for(address: SocketAddress) -> (r: SocketAddress)
    ensures
        match address {
            SocketAddress::V4 { ip, port } => r == (SocketAddress::V4 {
                ip: (Ipv4Address { a: 0, b: 0, c: 0, d: 0 }),
                port: 0,
            }),
            SocketAddress::V6 { bits, port, flow_info, scope_id } => r == (SocketAddress::V6 {
                bits: 0,
                port: 0,
                flow_info: 0,
                scope_id: 0,
            }),
        },
{
    match address {
        SocketAddress::V4 { ip, port } => SocketAddress::V4 {
            ip: Ipv4Address { a: 0, b: 0, c: 0, d: 0 },
            port: 0,
        },
        SocketAddress::V6 { bits, port, flow_info, scope_id } => SocketAddress::V6 {
            bits: 0,
            port: 0,
            flow_info: 0,
            scope_id: 0,
        },
    }
}

/// What is learned holds every IPv4 address of the answers, none of them twice, and is kept no
/// longer than any of them may be.
pub proof fn observations_hold_the_answers(answers: Seq<DnsRecord>)
    ensures
        forall|a: Ipv4Address| #[trigger]
            targets(answers).contains(a) <==> exists|i: int|
                0 <= i < answers.len() && (#[trigger] answers[i]).address == Some(a),
        targets(answers).no_duplicates(),
        shortest_ttl(answers) is Some <==> targets(answers).len() > 0,
        shortest_ttl(answers) matches Some(ttl) ==> forall|i: int|
            0 <= i < answers.len() && (#[trigger] answers[i]).address is Some ==> ttl
                <= answers[i].ttl,
    decreases answers.len(),
{
    if answers.len() > 0 {
        let t = answers.drop_last();
        observations_hold_the_answers(t);
        assert forall|a: Ipv4Address| #[trigger] targets(answers).contains(a) implies exists|
            i: int,
        |
            0 <= i < answers.len() && (#[trigger] answers[i]).address == Some(a) by {
            if targets(t).contains(a) {
                let i = choose|i: int|
                    0 <= i < t.len() && (#[trigger] t[i]).address == Some(a);
                assert(answers[i].address == Some(a));
            } else {
                assert(answers[answers.len() - 1].address == Some(a));
            }
        }
        assert forall|a: Ipv4Address|
            (exists|i: int|
                0 <= i < answers.len() && (#[trigger] answers[i]).address == Some(
                    a,
                )) implies #[trigger] targets(answers).contains(a) by {
            let i = choose|i: int|
                0 <= i < answers.len() && (#[trigger] answers[i]).address == Some(a);
            let before = targets(t);
            if i < t.len() {
                assert(t[i].address == Some(a));
                assert(before.contains(a));
                let k = choose|k: int| 0 <= k < before.len() && before[k] == a;
                assert(targets(answers)[k] == a);
            } else if !before.contains(a) {
                assert(targets(answers)[before.len() as int] == a);
            }
        }
        assert forall|i: int| 0 <= i < answers.len() && (
        #[trigger] answers[i]).address is Some implies shortest_ttl(answers)->0
            <= answers[i].ttl by {
            if i < t.len() {
                let a = t[i].address->0;
                assert(t[i].address == Some(a));
                assert(targets(t).contains(a));
            }
        }
    }
}

} // verus!
