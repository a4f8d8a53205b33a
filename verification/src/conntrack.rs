//! Snapshots of the kernel's connection table, and how flows are found in them.
use vstd::prelude::*;
use vstd::string::*;

use crate::addr::{IpAddress, Ipv4Address};
use crate::domain::{ConnectionState, Flow};
use crate::text::str_eq;

verus! {

/// An IPv4 TCP or UDP connection as seen from the side that sends.
#[derive(Debug, Clone, Copy, PartialEq, Eq, Structural, Hash)]
pub struct NetworkTuple {
    pub protocol: u8,
    pub source_ip: Ipv4Address,
    pub source_port: u16,
    pub destination_ip: Ipv4Address,
    pub destination_port: u16,
}

/// The number of a protocol that flows are found by.
pub open spec fn protocol_number(protocol: Seq<char>) -> Option<u8> {
    if protocol == "tcp"@ {
        Some(6)
    } else if protocol == "udp"@ {
        Some(17)
    } else {
        None
    }
}

/// The tuple of a flow from its client to its destination, if it is IPv4 TCP or UDP.
pub open spec fn tuple_of(f: crate::domain::FlowView) -> Option<NetworkTuple> {
    if protocol_number(f.protocol) is Some && crate::addr::ipv4_of(f.client_ip) is Some
        && crate::addr::ipv4_of(f.destination_ip) is Some {
        Some(
            NetworkTuple {
                protocol: protocol_number(f.protocol)->0,
                source_ip: crate::addr::ipv4_of(f.client_ip)->0,
                source_port: f.client_port,
                destination_ip: crate::addr::ipv4_of(f.destination_ip)->0,
                destination_port: f.destination_port,
            },
        )
    } else {
        None
    }
}

impl NetworkTuple {
    /// The tuple of a flow from its client to its destination.
    pub fn from_flow(flow: &Flow) -> (r: Option<Self>)
        ensures
            r == tuple_of(flow@),
    {
        let protocol: u8 = if str_eq(flow.protocol.as_str(), "tcp") {
            6
        } else if str_eq(flow.protocol.as_str(), "udp") {
            17
        } else {
            return None;
        };
        match (
            Ipv4Address::parse(flow.client_ip.as_str()),
            Ipv4Address::parse(flow.destination_ip.as_str()),
        ) {
            (Some(source_ip), Some(destination_ip)) => Some(
                NetworkTuple {
                    protocol,
                    source_ip,
                    source_port: flow.client_port,
                    destination_ip,
                    destination_port: flow.destination_port,
                },
            ),
            _ => None,
        }
    }
}

/// The addresses of a connection on the WAN side.
#[derive(Debug, Clone, Copy, PartialEq, Eq, Structural)]
pub struct NatMapping {
    pub source_ip: Ipv4Address,
    pub source_port: u16,
    pub destination_ip: Ipv4Address,
    pub destination_port: u16,
}

/// A connection that the kernel tracks.
#[derive(Debug, Clone, Copy, PartialEq, Eq, Structural)]
pub struct ConntrackEntry {
    pub original: NetworkTuple,
    pub reply: NetworkTuple,
    pub state: ConnectionState,
}

/// The addresses and ports of `b` are those of `a`, the other way round.
pub open spec fn reverses(a: NetworkTuple, b: NetworkTuple) -> bool {
    &&& a.source_ip == b.destination_ip
    &&& a.source_port == b.destination_port
    &&& a.destination_ip == b.source_ip
    &&& a.destination_port == b.source_port
}

impl ConntrackEntry {
    /// The translated addresses, where the replies do not come back the way the packets went.
    pub open spec fn translation(self) -> Option<NatMapping> {
        if reverses(self.original, self.reply) {
            None
        } else {
            Some(
                NatMapping {
                    source_ip: self.reply.destination_ip,
                    source_port: self.reply.destination_port,
                    destination_ip: self.reply.source_ip,
                    destination_port: self.reply.source_port,
                },
            )
        }
    }

    /// The translated addresses from client to server, where there is a translation.
    pub fn nat_mapping(&self) -> (r: Option<NatMapping>)
        ensures
            r == self.translation(),
    {
        let reverse_matches = self.original.source_ip == self.reply.destination_ip
            && self.original.source_port == self.reply.destination_port
            && self.original.destination_ip == self.reply.source_ip
            && self.original.destination_port == self.reply.source_port;
        if reverse_matches {
            return None;
        }
        Some(
            NatMapping {
                source_ip: self.reply.destination_ip,
                source_port: self.reply.destination_port,
                destination_ip: self.reply.source_ip,
                destination_port: self.reply.source_port,
            },
        )
    }
}

/// What a snapshot says of a flow.
#[derive(Debug, Clone, Copy, PartialEq, Eq, Structural)]
pub enum Association {
    Matched(ConntrackEntry),
    Unmatched,
    Ambiguous,
}

/// The entry is about the connection, seen from either side.
pub open spec fn mentions(e: ConntrackEntry, t: NetworkTuple) -> bool {
    e.original == t || e.reply == t
}

/// Entry `i` is the only one about the connection.
pub open spec fn sole_entry(entries: Seq<ConntrackEntry>, t: NetworkTuple, i: int) -> bool {
    &&& 0 <= i < entries.len()
    &&& mentions(entries[i], t)
    &&& forall|j: int| 0 <= j < entries.len() && mentions(#[trigger] entries[j], t) ==> j == i
}

/// The connection is in the table.
pub open spec fn in_table(entries: Seq<ConntrackEntry>, t: NetworkTuple) -> bool {
    exists|i: int| 0 <= i < entries.len() && mentions(#[trigger] entries[i], t)
}

/// What a table says of a flow: the entry about it, if there is exactly one.
pub open spec fn association_of(
    entries: Seq<ConntrackEntry>,
    f: crate::domain::FlowView,
) -> Association {
    match tuple_of(f) {
        None => Association::Unmatched,
        Some(t) => if !in_table(entries, t) {
            Association::Unmatched
        } else if exists|i: int| sole_entry(entries, t, i) {
            Association::Matched(entries[choose|i: int| sole_entry(entries, t, i)])
        } else {
            Association::Ambiguous
        },
    }
}

/// The connection table at one moment.
#[derive(Debug)]
pub struct ConntrackSnapshot {
    pub entries: Vec<ConntrackEntry>,
}

impl Clone for ConntrackSnapshot {
    fn clone(&self) -> (r: Self)
        ensures
            r.entries@ == self.entries@,
    {
        ConntrackSnapshot { entries: self.entries.clone() }
    }
}

impl ConntrackSnapshot {
    /// Takes a table.
    pub fn from_entries(entries: Vec<ConntrackEntry>) -> (r: Self)
        ensures
            r.entries@ == entries@,
    {
        ConntrackSnapshot { entries }
    }

    /// Finds the one entry about a flow. Where there are several, none is picked.
    pub fn associate(&self, flow: &Flow) -> (r: Association)
        ensures
            r == association_of(self.entries@, flow@),
    {
        let tuple = match NetworkTuple::from_flow(flow) {
            Some(tuple) => tuple,
            None => {
                return Association::Unmatched;
            },
        };
        let ghost all = self.entries@;
        let mut found: Option<usize> = None;
        let mut i: usize = 0;
        while i < self.entries.len()
            invariant
                all == self.entries@,
                i <= all.len(),
                tuple_of(flow@) == Some(tuple),
                match found {
                    None => forall|j: int| 0 <= j < i ==> !mentions(#[trigger] all[j], tuple),
                    Some(w) => w < i && mentions(all[w as int], tuple) && forall|j: int|
                        0 <= j < i && mentions(#[trigger] all[j], tuple) ==> j == w,
                },
            decreases all.len() - i,
        {
            if self.entries[i].original == tuple || self.entries[i].reply == tuple {
                match found {
                    None => {
                        found = Some(i);
                    },
                    Some(w) => {
                        proof {
                            assert(mentions(all[w as int], tuple));
                            assert(mentions(all[i as int], tuple));
                            assert forall|k: int| !sole_entry(all, tuple, k) by {}
                        }
                        return Association::Ambiguous;
                    },
                }
            }
            i = i + 1;
        }
        match found {
            None => Association::Unmatched,
            Some(w) => {
                proof {
                    assert(sole_entry(all, tuple, w as int));
                    let k = choose|k: int| sole_entry(all, tuple, k);
                    assert(sole_entry(all, tuple, k));
                    assert(k == w);
                }
                Association::Matched(self.entries[w])
            },
        }
    }
}

/// Where snapshots of the connection table come from.
pub trait ConntrackReader {
    /// Takes a snapshot.
    fn snapshot(&mut self, now_ns: u64) -> Result<ConntrackSnapshot, String>;
}

/// Keeps a snapshot for a while, so that the table is not read at every turn.
pub struct CachedConntrackReader<R: ConntrackReader> {
    pub inner: R,
    pub refresh_interval_ns: u64,
    pub cache: Option<(u64, ConntrackSnapshot)>,
}

/// The snapshot that was kept is recent enough.
pub open spec fn cache_fresh(
    cache: Option<(u64, ConntrackSnapshot)>,
    refresh_interval_ns: u64,
    now_ns: u64,
) -> bool {
    match cache {
        Some(kept) => crate::auth::elapsed(now_ns, kept.0) < refresh_interval_ns,
        None => false,
    }
}

impl<R: ConntrackReader> CachedConntrackReader<R> {
    /// Starts without a snapshot.
    pub fn new(inner: R, refresh_interval_ns: u64) -> (r: Self)
        ensures
            r.inner == inner,
            r.refresh_interval_ns == refresh_interval_ns,
            r.cache is None,
    {
        CachedConntrackReader { inner, refresh_interval_ns, cache: None }
    }
}

impl<R: ConntrackReader> ConntrackReader for CachedConntrackReader<R> {
    /// Hands out the kept snapshot while it is recent enough; otherwise takes a new one and keeps
    /// it. Where that fails, what was kept stays.
    fn snapshot(&mut self, now_ns: u64) -> (r: Result<ConntrackSnapshot, String>)
        ensures
            final(self).refresh_interval_ns == old(self).refresh_interval_ns,
            if cache_fresh(old(self).cache, old(self).refresh_interval_ns, now_ns) {
                &&& *final(self) == *old(self)
                &&& r is Ok
                &&& r->Ok_0.entries@ == (old(self).cache->0).1.entries@
            } else {
                &&& exists|asked: &mut R| #[trigger]
                    call_ensures(R::snapshot, (asked, now_ns), r) && *asked == old(self).inner
                        && (*final(asked)) == final(self).inner
                &&& match r {
                    Ok(snapshot) => match final(self).cache {
                        Some(kept) => kept.0 == now_ns && kept.1.entries@ == snapshot.entries@,
                        None => false,
                    },
                    Err(_) => final(self).cache == old(self).cache,
                }
            },
    {
        if let Some(kept) = &self.cache {
            if now_ns.saturating_sub(kept.0) < self.refresh_interval_ns {
                return Ok(kept.1.clone());
            }
        }
        match self.inner.snapshot(now_ns) {
            Ok(snapshot) => {
                self.cache = Some((now_ns, snapshot.clone()));
                Ok(snapshot)
            },
            Err(error) => Err(error),
        }
    }
}

/// A protocol in the kernel's table.
#[derive(Debug, Clone, Copy, PartialEq, Eq, Structural)]
pub enum KernelProtocol {
    Tcp,
    Udp,
    Other,
}

/// The state of a TCP connection in the kernel's table.
#[derive(Debug, Clone, Copy, PartialEq, Eq, Structural)]
pub enum KernelTcpState {
    NoState,
    SynSent,
    SynRecv,
    Established,
    FinWait,
    CloseWait,
    LastAck,
    TimeWait,
    Close,
    SynSent2,
    Unrecognized,
}

/// The protocol part of a tuple in the kernel's table.
#[derive(Debug, Clone, Copy, PartialEq, Eq, Structural)]
pub struct KernelProto {
    pub number: Option<KernelProtocol>,
    pub src_port: Option<u16>,
    pub dst_port: Option<u16>,
}

/// A tuple in the kernel's table.
#[derive(Debug, Clone, Copy, PartialEq, Eq, Structural)]
pub struct KernelTuple {
    pub src: Option<IpAddress>,
    pub dst: Option<IpAddress>,
    pub proto: Option<KernelProto>,
}

/// A connection in the kernel's table.
#[derive(Debug)]
pub struct KernelFlow {
    pub origin: Option<KernelTuple>,
    pub reply: Option<KernelTuple>,
    pub tcp_state: Option<KernelTcpState>,
    pub status: Option<Vec<String>>,
}

/// The IPv4 address, if it is one.
pub open spec fn v4_of(a: Option<IpAddress>) -> Option<Ipv4Address> {
    match a {
        Some(IpAddress::V4(ip)) => Some(ip),
        _ => None,
    }
}

/// The tuple, if it is complete and IPv4 TCP or UDP.
pub open spec fn kernel_tuple_of(t: Option<KernelTuple>) -> Option<NetworkTuple> {
    match t {
        None => None,
        Some(t) => match (v4_of(t.src), v4_of(t.dst), t.proto) {
            (Some(source_ip), Some(destination_ip), Some(proto)) => {
                let protocol: Option<u8> = match proto.number {
                    Some(KernelProtocol::Tcp) => Some(6),
                    Some(KernelProtocol::Udp) => Some(17),
                    _ => None,
                };
                match (protocol, proto.src_port, proto.dst_port) {
                    (Some(protocol), Some(source_port), Some(destination_port)) => Some(
                        NetworkTuple {
                            protocol,
                            source_ip,
                            source_port,
                            destination_ip,
                            destination_port,
                        },
                    ),
                    _ => None,
                }
            },
            _ => None,
        },
    }
}

fn ipv4(address: Option<IpAddress>) -> (r: Option<Ipv4Address>)
    ensures
        r == v4_of(address),
{
    match address {
        Some(IpAddress::V4(ip)) => Some(ip),
        _ => None,
    }
}

/// Reads a tuple of the kernel's table.
pub fn tuple_from_kernel(tuple: Option<KernelTuple>) -> (r: Option<NetworkTuple>)
    ensures
        r == kernel_tuple_of(tuple),
{
    let tuple = match tuple {
        Some(tuple) => tuple,
        None => {
            return None;
        },
    };
    match (ipv4(tuple.src), ipv4(tuple.dst), tuple.proto) {
        (Some(source_ip), Some(destination_ip), Some(proto)) => {
            let protocol: u8 = match proto.number {
                Some(KernelProtocol::Tcp) => 6,
                Some(KernelProtocol::Udp) => 17,
                _ => {
                    return None;
                },
            };
            match (proto.src_port, proto.dst_port) {
                (Some(source_port), Some(destination_port)) => Some(
                    NetworkTuple {
                        protocol,
                        source_ip,
                        source_port,
                        destination_ip,
                        destination_port,
                    },
                ),
                _ => None,
            }
        },
        _ => None,
    }
}

/// The status says that packets went both ways or that the connection is confirmed.
pub open spec fn is_confirmed(status: Seq<Seq<char>>) -> bool {
    exists|i: int|
        0 <= i < status.len() && (#[trigger] status[i] == "StatusConfirmed"@ || status[i]
            == "StatusAssured"@)
}

/// The state of a connection, by its TCP state or, without one, by its status.
pub open spec fn kernel_state_of(
    tcp: Option<KernelTcpState>,
    status: Option<Seq<Seq<char>>>,
) -> ConnectionState {
    match tcp {
        Some(KernelTcpState::SynSent) => ConnectionState::New,
        Some(KernelTcpState::SynRecv) => ConnectionState::New,
        Some(KernelTcpState::SynSent2) => ConnectionState::New,
        Some(KernelTcpState::Established) => ConnectionState::Established,
        Some(KernelTcpState::FinWait) => ConnectionState::Closing,
        Some(KernelTcpState::CloseWait) => ConnectionState::Closing,
        Some(KernelTcpState::LastAck) => ConnectionState::Closing,
        Some(KernelTcpState::TimeWait) => ConnectionState::Closing,
        Some(KernelTcpState::Close) => ConnectionState::Closed,
        Some(KernelTcpState::NoState) => ConnectionState::Unknown,
        Some(KernelTcpState::Unrecognized) => ConnectionState::Unknown,
        None => if status is Some && is_confirmed(status->0) {
            ConnectionState::Established
        } else {
            ConnectionState::New
        },
    }
}

/// The view of an optional list of strings.
pub open spec fn status_view(s: Option<Vec<String>>) -> Option<Seq<Seq<char>>> {
    match s {
        Some(v) => Some(crate::text::views(v@)),
        None => None,
    }
}

fn any_confirmed(status: &Vec<String>) -> (r: bool)
    ensures
        r == is_confirmed(crate::text::views(status@)),
{
    let ghost views = crate::text::views(status@);
    let mut i: usize = 0;
    while i < status.len()
        invariant
            views == crate::text::views(status@),
            i <= status@.len(),
            forall|k: int|
                0 <= k < i ==> #[trigger] views[k] != "StatusConfirmed"@ && views[k]
                    != "StatusAssured"@,
        decreases status@.len() - i,
    {
        proof {
            assert(views[i as int] == status@[i as int]@);
        }
        if str_eq(status[i].as_str(), "StatusConfirmed") || str_eq(
            status[i].as_str(),
            "StatusAssured",
        ) {
            return true;
        }
        i = i + 1;
    }
    false
}

/// Reads the state of a connection in the kernel's table.
pub fn state_from_kernel(flow: &KernelFlow) -> (r: ConnectionState)
    ensures
        r == kernel_state_of(flow.tcp_state, status_view(flow.status)),
{
    if let Some(state) = flow.tcp_state {
        return match state {
            KernelTcpState::SynSent => ConnectionState::New,
            KernelTcpState::SynRecv => ConnectionState::New,
            KernelTcpState::SynSent2 => ConnectionState::New,
            KernelTcpState::Established => ConnectionState::Established,
            KernelTcpState::FinWait => ConnectionState::Closing,
            KernelTcpState::CloseWait => ConnectionState::Closing,
            KernelTcpState::LastAck => ConnectionState::Closing,
            KernelTcpState::TimeWait => ConnectionState::Closing,
            KernelTcpState::Close => ConnectionState::Closed,
            KernelTcpState::NoState => ConnectionState::Unknown,
            KernelTcpState::Unrecognized => ConnectionState::Unknown,
        };
    }
    let confirmed = match &flow.status {
        Some(status) => any_confirmed(status),
        None => false,
    };
    if confirmed {
        ConnectionState::Established
    } else {
        ConnectionState::New
    }
}

/// The entry for a connection in the kernel's table, if it is IPv4 TCP or UDP both ways.
pub open spec fn kernel_entry_of(flow: KernelFlow) -> Option<ConntrackEntry> {
    match (kernel_tuple_of(flow.origin), kernel_tuple_of(flow.reply)) {
        (Some(original), Some(reply)) => Some(
            ConntrackEntry {
                original,
                reply,
                state: kernel_state_of(flow.tcp_state, status_view(flow.status)),
            },
        ),
        _ => None,
    }
}

/// Reads a connection of the kernel's table.
pub fn entry_from_kernel_flow(flow: &KernelFlow) -> (r: Option<ConntrackEntry>)
    ensures
        r == kernel_entry_of(*flow),
{
    match (tuple_from_kernel(flow.origin), tuple_from_kernel(flow.reply)) {
        (Some(original), Some(reply)) => Some(
            ConntrackEntry { original, reply, state: state_from_kernel(flow) },
        ),
        _ => None,
    }
}

/// The entries for a dump of the kernel's table; what is not IPv4 TCP or UDP is left out.
pub open spec fn dump_entries(flows: Seq<KernelFlow>) -> Seq<ConntrackEntry>
    decreases flows.len(),
{
    if flows.len() == 0 {
        Seq::<ConntrackEntry>::empty()
    } else {
        let before = dump_entries(flows.drop_last());
        match kernel_entry_of(flows.last()) {
            Some(e) => before.push(e),
            None => before,
        }
    }
}

/// Makes snapshots of dumps of the kernel's table.
#[derive(Debug, Clone, Copy, PartialEq, Eq, Structural)]
pub struct NetlinkConntrackReader {}

impl NetlinkConntrackReader {
    /// Makes a snapshot of a dump.
    pub fn snapshot_of(&self, flows: &Vec<KernelFlow>) -> (r: ConntrackSnapshot)
        ensures
            r.entries@ == dump_entries(flows@),
    {
        let mut entries: Vec<ConntrackEntry> = Vec::new();
        let mut i: usize = 0;
        proof {
            assert(flows@.take(0) =~= Seq::<KernelFlow>::empty());
        }
        while i < flows.len()
            invariant
                i <= flows@.len(),
                entries@ == dump_entries(flows@.take(i as int)),
            decreases flows@.len() - i,
        {
            proof {
                assert(flows@.take(i + 1).drop_last() =~= flows@.take(i as int));
                assert(flows@.take(i + 1).last() == flows@[i as int]);
            }
            if let Some(entry) = entry_from_kernel_flow(&flows[i]) {
                entries.push(entry);
            }
            i = i + 1;
        }
        proof {
            assert(flows@.take(i as int) =~= flows@);
        }
        ConntrackSnapshot::from_entries(entries)
    }
}

/// A flow that two entries mention is not associated with either.
pub proof fn ambiguous_entries_are_not_picked(
    entries: Seq<ConntrackEntry>,
    f: crate::domain::FlowView,
    i: int,
    j: int,
)
    requires
        tuple_of(f) is Some,
        0 <= i < j < entries.len(),
        mentions(entries[i], tuple_of(f)->0),
        mentions(entries[j], tuple_of(f)->0),
    ensures
        association_of(entries, f) == Association::Ambiguous,
{
    let t = tuple_of(f)->0;
    assert forall|k: int| !sole_entry(entries, t, k) by {
        assert(mentions(entries[i], t));
        assert(mentions(entries[j], t));
    }
}

/// An entry that a flow is associated with is in the table and about that flow.
pub proof fn association_is_about_the_flow(
    entries: Seq<ConntrackEntry>,
    f: crate::domain::FlowView,
)
    ensures
        match association_of(entries, f) {
            Association::Matched(e) => entries.contains(e) && tuple_of(f) is Some && mentions(
                e,
                tuple_of(f)->0,
            ),
            _ => true,
        },
{
    if let Association::Matched(e) = association_of(entries, f) {
        let t = tuple_of(f)->0;
        let i = choose|i: int| sole_entry(entries, t, i);
        assert(sole_entry(entries, t, i));
    }
}

} // verus!
