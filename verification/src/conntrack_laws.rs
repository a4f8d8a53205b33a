//! What looking flows up in the kernel's connection table comes to: which flow is which connection,
//! and what its translation and state are.
use vstd::prelude::*;

use crate::addr::IpAddress;
use crate::conntrack::{
    Association, ConntrackEntry, ConntrackSnapshot, KernelFlow, KernelProtocol, KernelTcpState,
    KernelTuple, NetworkTuple,
};
use crate::domain::{ConnectionState, FlowView};

verus! {

/// The flow and the tuple are one: same protocol, same client, same destination.
pub open spec fn is_tuple_of(f: FlowView, t: NetworkTuple) -> bool {
    &&& (f.protocol == "tcp"@ && t.protocol == 6) || (f.protocol == "udp"@ && t.protocol == 17)
    &&& crate::addr::ipv4_of(f.client_ip) == Some(t.source_ip)
    &&& f.client_port == t.source_port
    &&& crate::addr::ipv4_of(f.destination_ip) == Some(t.destination_ip)
    &&& f.destination_port == t.destination_port
}

/// A flow of TCP or UDP between two IPv4 addresses has a tuple: the number of its protocol, its own
/// addresses and its own ports. No other flow has one.
pub proof fn tcp_and_udp_flows_have_a_tuple(f: FlowView)
    ensures
        crate::conntrack::tuple_of(f) is Some <==> (f.protocol == "tcp"@ || f.protocol == "udp"@)
            && crate::addr::ipv4_of(f.client_ip) is Some && crate::addr::ipv4_of(
            f.destination_ip,
        ) is Some,
        crate::conntrack::tuple_of(f) matches Some(t) ==> is_tuple_of(f, t),
{
    reveal_strlit("tcp");
    reveal_strlit("udp");
}

/// No flow has two tuples.
pub proof fn tuples_of_a_flow_are_one(f: FlowView, t: NetworkTuple)
    ensures
        is_tuple_of(f, t) <==> crate::conntrack::tuple_of(f) == Some(t),
{
    reveal_strlit("tcp");
    reveal_strlit("udp");
    assert("tcp"@[0] != "udp"@[0]);
    tcp_and_udp_flows_have_a_tuple(f);
}

/// A flow that exactly one connection of the table is about, seen from either side, is associated
/// with that connection.
pub proof fn flows_are_found_in_the_table(entries: Seq<ConntrackEntry>, f: FlowView, i: int)
    requires
        0 <= i < entries.len(),
        is_tuple_of(f, entries[i].original) || is_tuple_of(f, entries[i].reply),
        forall|j: int|
            0 <= j < entries.len() && j != i ==> !is_tuple_of(f, (#[trigger] entries[j]).original)
                && !is_tuple_of(f, entries[j].reply),
    ensures
        crate::conntrack::association_of(entries, f) == Association::Matched(entries[i]),
{
    let t = if is_tuple_of(f, entries[i].original) {
        entries[i].original
    } else {
        entries[i].reply
    };
    tuples_of_a_flow_are_one(f, t);
    assert forall|j: int|
        0 <= j < entries.len() && crate::conntrack::mentions(
            #[trigger] entries[j],
            t,
        ) implies j == i by {
        if j != i {
            assert(!is_tuple_of(f, entries[j].original) && !is_tuple_of(f, entries[j].reply));
        }
    }
    assert(crate::conntrack::mentions(entries[i], t));
    assert(crate::conntrack::sole_entry(entries, t, i));
    let x = choose|x: int| crate::conntrack::sole_entry(entries, t, x);
    assert(crate::conntrack::sole_entry(entries, t, x));
}

/// A flow that no connection of the table is about is not associated with any.
pub proof fn flows_that_are_not_in_the_table_are_unmatched(
    entries: Seq<ConntrackEntry>,
    f: FlowView,
)
    requires
        forall|j: int|
            0 <= j < entries.len() ==> !is_tuple_of(f, (#[trigger] entries[j]).original)
                && !is_tuple_of(f, entries[j].reply),
    ensures
        crate::conntrack::association_of(entries, f) == Association::Unmatched,
        crate::collector::enriched(entries, f) == f,
{
    if let Some(t) = crate::conntrack::tuple_of(f) {
        tuples_of_a_flow_are_one(f, t);
        assert forall|j: int| 0 <= j < entries.len() implies !crate::conntrack::mentions(
            #[trigger] entries[j],
            t,
        ) by {
            assert(!is_tuple_of(f, entries[j].original) && !is_tuple_of(f, entries[j].reply));
        }
    }
}

/// A flow that two connections of the table are about is associated with neither, and left as it
/// is.
pub proof fn flows_that_are_in_the_table_twice_are_left_alone(
    entries: Seq<ConntrackEntry>,
    f: FlowView,
    i: int,
    j: int,
)
    requires
        0 <= i < j < entries.len(),
        is_tuple_of(f, entries[i].original) || is_tuple_of(f, entries[i].reply),
        is_tuple_of(f, entries[j].original) || is_tuple_of(f, entries[j].reply),
    ensures
        crate::conntrack::association_of(entries, f) == Association::Ambiguous,
        crate::collector::enriched(entries, f) == f,
{
    let t = if is_tuple_of(f, entries[i].original) {
        entries[i].original
    } else {
        entries[i].reply
    };
    tuples_of_a_flow_are_one(f, t);
    tuples_of_a_flow_are_one(f, entries[j].original);
    tuples_of_a_flow_are_one(f, entries[j].reply);
    assert(crate::conntrack::mentions(entries[i], t));
    assert(crate::conntrack::mentions(entries[j], t));
    assert forall|k: int| !crate::conntrack::sole_entry(entries, t, k) by {}
    assert(crate::conntrack::in_table(entries, t));
}

/// A flow that is found in the table gets the state of its connection. Where the replies of the
/// connection are not simply its packets the other way round, its source is translated to where the
/// replies go and its destination to where they come from. Nothing else of it changes.
pub proof fn found_flows_get_translation_and_state(
    entries: Seq<ConntrackEntry>,
    f: FlowView,
    i: int,
)
    requires
        0 <= i < entries.len(),
        is_tuple_of(f, entries[i].original) || is_tuple_of(f, entries[i].reply),
        forall|j: int|
            0 <= j < entries.len() && j != i ==> !is_tuple_of(f, (#[trigger] entries[j]).original)
                && !is_tuple_of(f, entries[j].reply),
    ensures
        ({
            let e = entries[i];
            let g = crate::collector::enriched(entries, f);
            let plain = e.reply.source_ip == e.original.destination_ip && e.reply.source_port
                == e.original.destination_port && e.reply.destination_ip == e.original.source_ip
                && e.reply.destination_port == e.original.source_port;
            &&& g.connection_state == e.state
            &&& plain ==> g.nat_source_ip == f.nat_source_ip && g.nat_source_port
                == f.nat_source_port && g.nat_destination_ip == f.nat_destination_ip
                && g.nat_destination_port == f.nat_destination_port
            &&& !plain ==> {
                &&& g.nat_source_ip is Some && crate::addr::ipv4_of(g.nat_source_ip->0) == Some(
                    e.reply.destination_ip,
                )
                &&& g.nat_source_port == Some(e.reply.destination_port)
                &&& g.nat_destination_ip is Some && crate::addr::ipv4_of(g.nat_destination_ip->0)
                    == Some(e.reply.source_ip)
                &&& g.nat_destination_port == Some(e.reply.source_port)
            }
            &&& g == (FlowView {
                nat_source_ip: g.nat_source_ip,
                nat_source_port: g.nat_source_port,
                nat_destination_ip: g.nat_destination_ip,
                nat_destination_port: g.nat_destination_port,
                connection_state: g.connection_state,
                ..f
            })
        }),
{
    flows_are_found_in_the_table(entries, f, i);
    entries[i].reply.destination_ip.text_round_trips();
    entries[i].reply.source_ip.text_round_trips();
}

/// The kernel's tuple is the network tuple: both addresses are IPv4, the protocol is TCP or UDP,
/// and both ports are given.
pub open spec fn reads_as(k: KernelTuple, t: NetworkTuple) -> bool {
    &&& k.src == Some(IpAddress::V4(t.source_ip))
    &&& k.dst == Some(IpAddress::V4(t.destination_ip))
    &&& k.proto is Some
    &&& (k.proto->0.number == Some(KernelProtocol::Tcp) && t.protocol == 6) || (
    k.proto->0.number == Some(KernelProtocol::Udp) && t.protocol == 17)
    &&& k.proto->0.src_port == Some(t.source_port)
    &&& k.proto->0.dst_port == Some(t.destination_port)
}

/// A tuple of the kernel's table is read exactly where it is a complete one of IPv4 and TCP or UDP,
/// and as what it is.
pub proof fn kernel_tuples_are_read_as_they_are(k: KernelTuple, t: NetworkTuple)
    ensures
        crate::conntrack::kernel_tuple_of(Some(k)) == Some(t) <==> reads_as(k, t),
        crate::conntrack::kernel_tuple_of(None) is None,
{
}

/// A connection of the kernel's table is read where both its tuples are, with the one as the
/// original and the other as the reply.
pub proof fn kernel_connections_are_read_as_they_are(flow: KernelFlow, e: ConntrackEntry)
    requires
        flow.origin is Some,
        flow.reply is Some,
        reads_as(flow.origin->0, e.original),
        reads_as(flow.reply->0, e.reply),
    ensures
        crate::conntrack::kernel_entry_of(flow) matches Some(read) && read.original == e.original
            && read.reply == e.reply && read.state == crate::conntrack::kernel_state_of(
            flow.tcp_state,
            crate::conntrack::status_view(flow.status),
        ),
{
    kernel_tuples_are_read_as_they_are(flow.origin->0, e.original);
    kernel_tuples_are_read_as_they_are(flow.reply->0, e.reply);
}

/// A connection of the kernel's table of which a tuple is missing is not read.
pub proof fn incomplete_kernel_connections_are_not_read(flow: KernelFlow)
    requires
        (flow.origin matches Some(k) ==> forall|t: NetworkTuple| !#[trigger] reads_as(k, t)) || (
        flow.reply matches Some(k) ==> forall|t: NetworkTuple| !#[trigger] reads_as(k, t)),
    ensures
        crate::conntrack::kernel_entry_of(flow) is None,
{
    if let Some(e) = crate::conntrack::kernel_entry_of(flow) {
        assert(flow.origin is Some && flow.reply is Some);
        kernel_tuples_are_read_as_they_are(flow.origin->0, e.original);
        kernel_tuples_are_read_as_they_are(flow.reply->0, e.reply);
        assert(reads_as(flow.origin->0, e.original));
        assert(reads_as(flow.reply->0, e.reply));
    }
}

/// The table that is read is that of the connections that can be read, in order: each that comes
/// adds itself at the end, and one that cannot be read adds nothing.
pub proof fn kernel_tables_are_read_in_order(flows: Seq<KernelFlow>, flow: KernelFlow)
    ensures
        crate::conntrack::dump_entries(Seq::empty()).len() == 0,
        match crate::conntrack::kernel_entry_of(flow) {
            Some(e) => crate::conntrack::dump_entries(flows.push(flow))
                == crate::conntrack::dump_entries(flows).push(e),
            None => crate::conntrack::dump_entries(flows.push(flow))
                == crate::conntrack::dump_entries(flows),
        },
{
    assert(flows.push(flow).drop_last() =~= flows);
}

proof fn lemma_dumped(flows: Seq<KernelFlow>, i: int)
    requires
        0 <= i < flows.len(),
        crate::conntrack::kernel_entry_of(flows[i]) is Some,
    ensures
        crate::conntrack::dump_entries(flows).contains(
            crate::conntrack::kernel_entry_of(flows[i])->0,
        ),
    decreases flows.len(),
{
    let e = crate::conntrack::kernel_entry_of(flows[i])->0;
    let before = crate::conntrack::dump_entries(flows.drop_last());
    let all = crate::conntrack::dump_entries(flows);
    if i == flows.len() - 1 {
        assert(all.last() == e);
        assert(all[all.len() - 1] == e);
    } else {
        assert(flows.drop_last()[i] == flows[i]);
        lemma_dumped(flows.drop_last(), i);
        let k = choose|k: int| 0 <= k < before.len() && before[k] == e;
        assert(all[k] == e);
    }
}

proof fn lemma_dump_origin(flows: Seq<KernelFlow>, k: int) -> (i: int)
    requires
        0 <= k < crate::conntrack::dump_entries(flows).len(),
    ensures
        0 <= i < flows.len(),
        crate::conntrack::kernel_entry_of(flows[i]) == Some(
            crate::conntrack::dump_entries(flows)[k],
        ),
    decreases flows.len(),
{
    let before = crate::conntrack::dump_entries(flows.drop_last());
    if k < before.len() {
        let i = lemma_dump_origin(flows.drop_last(), k);
        assert(flows.drop_last()[i] == flows[i]);
        i
    } else {
        flows.len() - 1
    }
}

/// A flow whose tuple is the original one of a connection in the kernel's table, and which no other
/// connection of the table mentions, is associated with that connection.
pub proof fn flows_are_found_in_the_kernel_table(
    flows: Seq<KernelFlow>,
    f: FlowView,
    i: int,
    original: NetworkTuple,
    reply: NetworkTuple,
)
    requires
        0 <= i < flows.len(),
        flows[i].origin is Some && reads_as(flows[i].origin->0, original),
        flows[i].reply is Some && reads_as(flows[i].reply->0, reply),
        is_tuple_of(f, original),
        forall|j: int, t: NetworkTuple|
            #![trigger flows[j], is_tuple_of(f, t)]
            0 <= j < flows.len() && j != i && is_tuple_of(f, t) ==> !(flows[j].origin is Some
                && reads_as(flows[j].origin->0, t)) && !(flows[j].reply is Some && reads_as(
                flows[j].reply->0,
                t,
            )),
        // No two connections of the table are the same.
        forall|x: int, y: int|
            0 <= x < y < crate::conntrack::dump_entries(flows).len()
                ==> #[trigger] crate::conntrack::dump_entries(flows)[x]
                != #[trigger] crate::conntrack::dump_entries(flows)[y],
    ensures
        crate::conntrack::association_of(crate::conntrack::dump_entries(flows), f) matches
            Association::Matched(e) && e.original == original && e.reply == reply,
{
    let e = ConntrackEntry {
        original,
        reply,
        state: crate::conntrack::kernel_state_of(
            flows[i].tcp_state,
            crate::conntrack::status_view(flows[i].status),
        ),
    };
    kernel_connections_are_read_as_they_are(flows[i], e);
    let all = crate::conntrack::dump_entries(flows);
    lemma_dumped(flows, i);
    let k = choose|k: int| 0 <= k < all.len() && all[k] == e;
    assert forall|j: int| 0 <= j < all.len() && j != k implies !is_tuple_of(
        f,
        (#[trigger] all[j]).original,
    ) && !is_tuple_of(f, all[j].reply) by {
        let x = lemma_dump_origin(flows, j);
        let o = all[j];
        kernel_tuples_are_read_as_they_are(flows[x].origin->0, o.original);
        kernel_tuples_are_read_as_they_are(flows[x].reply->0, o.reply);
        if x == i {
            assert(o == e);
            if j < k {
                assert(all[j] != all[k]);
            } else {
                assert(all[k] != all[j]);
            }
        } else {
            if is_tuple_of(f, o.original) {
                assert(!(flows[x].origin is Some && reads_as(flows[x].origin->0, o.original)));
            }
            if is_tuple_of(f, o.reply) {
                assert(!(flows[x].reply is Some && reads_as(flows[x].reply->0, o.reply)));
            }
        }
    }
    flows_are_found_in_the_table(all, f, k);
}

/// A TCP connection is new while it is being set up, established afterwards, closing while it is
/// being torn down, and closed in the end. Without a TCP state it is established where the kernel
/// has confirmed it, and new otherwise.
pub proof fn connection_states_follow_the_kernel(status: Option<Seq<Seq<char>>>)
    ensures
        forall|s: KernelTcpState|
            crate::conntrack::kernel_state_of(Some(s), status) is New <==> (s is SynSent
                || s is SynRecv || s is SynSent2),
        forall|s: KernelTcpState|
            crate::conntrack::kernel_state_of(Some(s), status) is Established
                <==> s is Established,
        forall|s: KernelTcpState|
            crate::conntrack::kernel_state_of(Some(s), status) is Closing <==> (s is FinWait
                || s is CloseWait || s is LastAck || s is TimeWait),
        forall|s: KernelTcpState|
            crate::conntrack::kernel_state_of(Some(s), status) is Closed <==> s is Close,
        crate::conntrack::kernel_state_of(None, status) == if status is Some && (
        status->0.contains("StatusConfirmed"@) || status->0.contains("StatusAssured"@)) {
            ConnectionState::Established
        } else {
            ConnectionState::New
        },
{
    if let Some(all) = status {
        if all.contains("StatusConfirmed"@) {
            let i = choose|i: int| 0 <= i < all.len() && all[i] == "StatusConfirmed"@;
            assert(crate::conntrack::is_confirmed(all));
        }
        if all.contains("StatusAssured"@) {
            let i = choose|i: int| 0 <= i < all.len() && all[i] == "StatusAssured"@;
            assert(crate::conntrack::is_confirmed(all));
        }
        if crate::conntrack::is_confirmed(all) {
            let i = choose|i: int|
                0 <= i < all.len() && (#[trigger] all[i] == "StatusConfirmed"@ || all[i]
                    == "StatusAssured"@);
            assert(all.contains(all[i]));
        }
    }
}

/// A table that was read is used again until the interval is over, and never before one was read.
pub proof fn tables_are_read_again_after_the_interval(
    kept: (u64, ConntrackSnapshot),
    interval_ns: u64,
    now_ns: u64,
)
    ensures
        now_ns >= kept.0 ==> (crate::conntrack::cache_fresh(Some(kept), interval_ns, now_ns) <==> now_ns
            < kept.0 + interval_ns),
        now_ns < kept.0 ==> (crate::conntrack::cache_fresh(Some(kept), interval_ns, now_ns)
            <==> interval_ns > 0),
        !crate::conntrack::cache_fresh(None, interval_ns, now_ns),
{
}

} // verus!
