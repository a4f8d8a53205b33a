//! DNS messages, as the crate hickory-proto reads them.
//!
//! Nothing in this file is proved: the function hands a packet to the crate and states that the
//! result depends on the packet alone.
use hickory_proto::op::Message;
use hickory_proto::rr::RData;
use vstd::prelude::*;

use crate::addr::Ipv4Address;

verus! {

/// Why a packet could not be read (`hickory_proto::serialize::binary::DecodeError`).
#[verifier::external_type_specification]
#[verifier::external_body]
pub struct ExDecodeFailure(hickory_proto::serialize::binary::DecodeError);

/// What is used of a record in an answer: the address, where it holds an IPv4 address, and for how
/// many seconds it may be kept.
#[derive(Debug, Clone, Copy, PartialEq, Eq)]
pub struct DnsRecord {
    pub address: Option<Ipv4Address>,
    pub ttl: u32,
}

/// What is used of a message: the names that it asks for and the records that it answers with.
#[derive(Debug, PartialEq, Eq)]
pub struct DnsMessage {
    pub queries: Vec<String>,
    pub answers: Vec<DnsRecord>,
}

/// A message as a mathematical value.
#[verifier::ext_equal]
pub struct MessageView {
    pub queries: Seq<Seq<char>>,
    pub answers: Seq<DnsRecord>,
}

impl View for DnsMessage {
    type V = MessageView;

    open spec fn view(&self) -> MessageView {
        MessageView { queries: crate::text::views(self.queries@), answers: self.answers@ }
    }
}

/// The message that a packet holds, if it is one.
pub uninterp spec fn message_of(packet: Seq<u8>) -> Option<MessageView>;

/// `Message::from_vec` of the crate hickory-proto: the message that the packet holds, or an error
/// where it is none. Of the message, the names of its queries are taken, as the crate writes them,
/// and the data of its answers that are IPv4 addresses.
#[verifier::external_body]
pub(crate) fn read_message(packet: &[u8]) -> (r: Result<
    DnsMessage,
    hickory_proto::serialize::binary::DecodeError,
>)
    ensures
        match r {
            Ok(message) => message_of(packet@) == Some(message@),
            Err(_) => message_of(packet@) is None,
        },
{
    let message = Message::from_vec(packet)?;
    let queries = message.queries.iter().map(|query| query.name.to_string()).collect();
    let records = message.answers.iter().map(|record| match &record.data {
        RData::A(found) => {
            let [a, b, c, d] = found.0.octets();
            DnsRecord { address: Some(Ipv4Address { a, b, c, d }), ttl: record.ttl }
        }
        _ => DnsRecord { address: None, ttl: record.ttl },
    });
    let answers = records.collect();
    Ok(DnsMessage { queries, answers })
}

} // verus!
