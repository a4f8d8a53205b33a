//! What collecting flows comes to: what each entry of the kernel's map says of its flow, which
//! entries are reported, and which batches are refused.
use vstd::prelude::*;

use crate::collector::BatchProblem;
use crate::domain::{ConnectionState, FlowDirection, FlowView};
use crate::tc_ebpf::{EbpfEntry, TcEbpfCollector};

verus! {

/// The value of a hexadecimal digit in lower case; nothing for any other character.
pub open spec fn hex_value(c: char) -> Option<int> {
    if '0' <= c <= '9' {
        Some(c as u32 - '0' as u32)
    } else if 'a' <= c <= 'f' {
        Some(c as u32 - 'a' as u32 + 10)
    } else {
        None
    }
}

/// The text is the usual notation of a hardware address: six bytes, each as two hexadecimal digits,
/// with colons between them.
pub open spec fn is_mac_text(text: Seq<char>, mac: Seq<u8>) -> bool {
    &&& text.len() == 17
    &&& forall|i: int|
        0 <= i < 6 ==> {
            &&& hex_value(text[3 * i]) is Some
            &&& hex_value(text[3 * i + 1]) is Some
            &&& hex_value(text[3 * i])->0 * 16 + hex_value(text[3 * i + 1])->0 == #[trigger] mac[i]
        }
    &&& forall|i: int| 0 <= i < 5 ==> #[trigger] text[3 * i + 2] == ':'
}

/// The text is the IPv4 address with the number.
pub open spec fn is_ip_text(text: Seq<char>, number: u32) -> bool {
    crate::addr::ipv4_of(text) matches Some(ip) && ip.a * 0x100_0000 + ip.b * 0x1_0000 + ip.c
        * 0x100 + ip.d == number
}

/// An event on the one clock happened at a time on the other: as many whole milliseconds ago as on
/// the first. An event in the time to come happens now.
pub open spec fn is_time_of(at: i64, now_ns: u64, event_ns: u64, observed_at_ms: i64) -> bool {
    if event_ns > now_ns {
        at == observed_at_ms
    } else {
        let age = now_ns - event_ns;
        0 <= age - (observed_at_ms - at) * 1_000_000 < 1_000_000
    }
}

proof fn lemma_hex_digit(d: int)
    requires
        0 <= d < 16,
    ensures
        hex_value(crate::text::hex_char(d)) == Some(d),
{
}

/// Hardware addresses are written in the usual notation.
pub proof fn hardware_addresses_are_written_out(mac: [u8; 6])
    ensures
        is_mac_text(crate::tc_ebpf::mac_text(mac), mac@),
{
    let text = crate::tc_ebpf::mac_text(mac);
    assert forall|i: int| 0 <= i < 6 implies hex_value(text[3 * i]) is Some && hex_value(
        text[3 * i + 1],
    ) is Some && hex_value(text[3 * i])->0 * 16 + hex_value(text[3 * i + 1])->0
        == #[trigger] mac@[i] by {
        let b = mac@[i] as int;
        lemma_hex_digit(b / 16);
        lemma_hex_digit(b % 16);
        assert(text[3 * i] == crate::text::hex_char(b / 16));
        assert(text[3 * i + 1] == crate::text::hex_char(b % 16));
    }
}

/// IPv4 addresses are written as the four bytes of their number, the highest first.
pub proof fn addresses_are_written_out(number: u32)
    ensures
        is_ip_text(crate::addr::Ipv4Address::of_number(number).text(), number),
{
    let ip = crate::addr::Ipv4Address::of_number(number);
    ip.text_round_trips();
    let n = number as int;
    assert(n / 0x100_0000 < 0x100);
}

/// Times of the kernel's clock are turned into times of the wall clock.
pub proof fn kernel_times_become_wall_times(now_ns: u64, event_ns: u64, observed_at_ms: i64)
    requires
        observed_at_ms >= i64::MIN + 18_446_744_073_710,
    ensures
        is_time_of(
            crate::tc_ebpf::wall_time(now_ns, event_ns, observed_at_ms),
            now_ns,
            event_ns,
            observed_at_ms,
        ),
{
}

/// What the kernel counted of a flow is what is reported of it: bytes that the client has sent as
/// its upload, bytes that it was sent as its download, and the packets. The flow is that of the
/// client with the entry's hardware address, address and port, to the entry's destination, by the
/// entry's protocol, over the two interfaces; with neither translation nor name, and in an unknown
/// state.
pub proof fn kernel_entries_are_reported_as_they_are(
    lan: Seq<char>,
    wan: Seq<char>,
    session_id: u64,
    entry: EbpfEntry,
    now_ns: u64,
    observed_at_ms: i64,
)
    requires
        observed_at_ms >= i64::MIN + 18_446_744_073_710,
    ensures
        ({
            let f = crate::tc_ebpf::flow_of(lan, wan, session_id, entry, now_ns, observed_at_ms);
            &&& f.upload_bytes == entry.1.upload_bytes
            &&& f.download_bytes == entry.1.download_bytes
            &&& f.packet_count == entry.1.packet_count
            &&& is_time_of(f.first_seen, now_ns, entry.1.first_seen_ns, observed_at_ms)
            &&& is_time_of(f.last_seen, now_ns, entry.1.last_seen_ns, observed_at_ms)
            &&& is_mac_text(f.client_mac, entry.0.client_mac@)
            &&& is_ip_text(f.client_ip, entry.0.client_ip)
            &&& f.client_port == entry.0.client_port
            &&& is_ip_text(f.destination_ip, entry.0.destination_ip)
            &&& f.destination_port == entry.0.destination_port
            &&& f.protocol == "tcp"@ <==> entry.0.protocol == 6
            &&& f.protocol == "udp"@ <==> entry.0.protocol == 17
            &&& entry.0.protocol != 6 && entry.0.protocol != 17 ==> f.protocol == "unknown"@
            &&& f.direction == FlowDirection::Bidirectional
            &&& f.lan_interface == lan
            &&& f.wan_interface == wan
            &&& f.nat_source_ip is None && f.nat_source_port is None
            &&& f.nat_destination_ip is None && f.nat_destination_port is None
            &&& f.domain is None
            &&& f.connection_state == ConnectionState::Unknown
        }),
{
    hardware_addresses_are_written_out(entry.0.client_mac);
    addresses_are_written_out(entry.0.client_ip);
    addresses_are_written_out(entry.0.destination_ip);
    kernel_times_become_wall_times(now_ns, entry.1.first_seen_ns, observed_at_ms);
    kernel_times_become_wall_times(now_ns, entry.1.last_seen_ns, observed_at_ms);
    reveal_strlit("tcp");
    reveal_strlit("udp");
    reveal_strlit("unknown");
    assert("tcp"@[0] != "udp"@[0]);
    assert("tcp"@[0] != "unknown"@[0]);
    assert("udp"@.len() != "unknown"@.len());
}

/// A flow is live while it was last seen no more than five minutes ago.
pub open spec fn is_live(entry: EbpfEntry, now_ns: u64) -> bool {
    now_ns - entry.1.last_seen_ns <= 300_000_000_000
}

/// Each entry that comes adds its flow at the end of what is reported where it is live, and its key
/// at the end of what is to be removed otherwise.
pub proof fn entries_are_reported_or_removed(
    c: TcEbpfCollector,
    entries: Seq<EbpfEntry>,
    entry: EbpfEntry,
    now_ns: u64,
)
    ensures
        crate::tc_ebpf::live_entries(Seq::empty(), now_ns).len() == 0,
        crate::tc_ebpf::idle_keys(Seq::empty(), now_ns).len() == 0,
        is_live(entry, now_ns) ==> crate::tc_ebpf::live_entries(entries.push(entry), now_ns)
            == crate::tc_ebpf::live_entries(entries, now_ns).push(entry)
            && crate::tc_ebpf::idle_keys(entries.push(entry), now_ns)
            == crate::tc_ebpf::idle_keys(entries, now_ns),
        !is_live(entry, now_ns) ==> crate::tc_ebpf::live_entries(entries.push(entry), now_ns)
            == crate::tc_ebpf::live_entries(entries, now_ns) && crate::tc_ebpf::idle_keys(
            entries.push(entry),
            now_ns,
        ) == crate::tc_ebpf::idle_keys(entries, now_ns).push(entry.0),
{
    assert(entries.push(entry).drop_last() =~= entries);
}

proof fn lemma_live_at(entries: Seq<EbpfEntry>, now_ns: u64, i: int) -> (k: int)
    requires
        0 <= i < entries.len(),
        is_live(entries[i], now_ns),
    ensures
        0 <= k < crate::tc_ebpf::live_entries(entries, now_ns).len(),
        crate::tc_ebpf::live_entries(entries, now_ns)[k] == entries[i],
    decreases entries.len(),
{
    let before = crate::tc_ebpf::live_entries(entries.drop_last(), now_ns);
    if i == entries.len() - 1 {
        before.len() as int
    } else {
        assert(entries.drop_last()[i] == entries[i]);
        let k = lemma_live_at(entries.drop_last(), now_ns, i);
        assert(crate::tc_ebpf::live_entries(entries, now_ns)[k] == before[k]);
        k
    }
}

proof fn lemma_live_from(entries: Seq<EbpfEntry>, now_ns: u64, k: int) -> (i: int)
    requires
        0 <= k < crate::tc_ebpf::live_entries(entries, now_ns).len(),
    ensures
        0 <= i < entries.len(),
        is_live(entries[i], now_ns),
        crate::tc_ebpf::live_entries(entries, now_ns)[k] == entries[i],
    decreases entries.len(),
{
    let before = crate::tc_ebpf::live_entries(entries.drop_last(), now_ns);
    if k < before.len() {
        let i = lemma_live_from(entries.drop_last(), now_ns, k);
        assert(entries.drop_last()[i] == entries[i]);
        i
    } else {
        entries.len() - 1
    }
}

/// The flow that is reported for an entry, told by its counters and its endpoints.
pub open spec fn reports(f: FlowView, e: EbpfEntry) -> bool {
    &&& f.upload_bytes == e.1.upload_bytes
    &&& f.download_bytes == e.1.download_bytes
    &&& f.packet_count == e.1.packet_count
    &&& is_mac_text(f.client_mac, e.0.client_mac@)
    &&& is_ip_text(f.client_ip, e.0.client_ip)
    &&& f.client_port == e.0.client_port
    &&& is_ip_text(f.destination_ip, e.0.destination_ip)
    &&& f.destination_port == e.0.destination_port
}

/// For each live entry of the kernel's map a flow is reported with its counters and endpoints, and
/// no flow is reported that is not that of a live entry.
pub proof fn live_entries_are_reported(
    c: TcEbpfCollector,
    entries: Seq<EbpfEntry>,
    now_ns: u64,
    observed_at_ms: i64,
)
    requires
        observed_at_ms >= i64::MIN + 18_446_744_073_710,
    ensures
        ({
            let flows = c.flows(
                crate::tc_ebpf::live_entries(entries, now_ns),
                now_ns,
                observed_at_ms,
            );
            &&& forall|i: int|
                0 <= i < entries.len() && is_live(#[trigger] entries[i], now_ns) ==> exists|k: int|
                    0 <= k < flows.len() && reports(#[trigger] flows[k], entries[i])
            &&& forall|k: int|
                0 <= k < flows.len() ==> exists|i: int|
                    0 <= i < entries.len() && is_live(#[trigger] entries[i], now_ns) && reports(
                        #[trigger] flows[k],
                        entries[i],
                    )
        }),
{
    let live = crate::tc_ebpf::live_entries(entries, now_ns);
    let flows = c.flows(live, now_ns, observed_at_ms);
    assert forall|k: int| 0 <= k < flows.len() implies reports(#[trigger] flows[k], live[k]) by {
        kernel_entries_are_reported_as_they_are(
            c.lan_interface@,
            c.wan_interface@,
            c.session_id,
            live[k],
            now_ns,
            observed_at_ms,
        );
    }
    assert forall|i: int|
        0 <= i < entries.len() && is_live(#[trigger] entries[i], now_ns) implies exists|k: int|
        0 <= k < flows.len() && reports(#[trigger] flows[k], entries[i]) by {
        let k = lemma_live_at(entries, now_ns, i);
        assert(reports(flows[k], entries[i]));
    }
    assert forall|k: int| 0 <= k < flows.len() implies exists|i: int|
        0 <= i < entries.len() && is_live(#[trigger] entries[i], now_ns) && reports(
            #[trigger] flows[k],
            entries[i],
        ) by {
        let i = lemma_live_from(entries, now_ns, k);
        assert(reports(flows[k], entries[i]));
    }
}

/// A flow is valid where it has an identity, a device, two addresses and a protocol, where it does
/// not end before it begins, and where its translation is complete or missing.
pub proof fn valid_flows_are_complete(f: FlowView)
    ensures
        crate::domain::flow_valid(f) <==> {
            &&& f.flow_id.len() > 0
            &&& f.client_mac.len() > 0
            &&& f.client_ip.len() > 0
            &&& f.destination_ip.len() > 0
            &&& f.protocol.len() > 0
            &&& f.first_seen <= f.last_seen
            &&& {
                ||| f.nat_source_ip is Some && f.nat_source_port is Some && f.nat_destination_ip is Some
                    && f.nat_destination_port is Some
                ||| f.nat_source_ip is None && f.nat_source_port is None && f.nat_destination_ip is None
                    && f.nat_destination_port is None
            }
        },
{
}

/// A batch is sound exactly where all its flows are valid and no identity occurs twice.
pub proof fn sound_batches_have_valid_and_distinct_flows(flows: Seq<FlowView>)
    ensures
        crate::collector::batch_problem(flows) is None <==> {
            &&& forall|i: int|
                0 <= i < flows.len() ==> crate::domain::flow_valid(#[trigger] flows[i])
            &&& forall|i: int, j: int|
                0 <= i < j < flows.len() ==> (#[trigger] flows[i]).flow_id != (
                #[trigger] flows[j]).flow_id
        },
    decreases flows.len(),
{
    if flows.len() > 0 {
        let t = flows.drop_last();
        let f = flows.last();
        let n = flows.len() - 1;
        sound_batches_have_valid_and_distinct_flows(t);
        if crate::collector::batch_problem(flows) is None {
            crate::collector::sound_batches_are_valid_and_distinct(flows);
        } else if crate::collector::batch_problem(t) is Some {
            if forall|i: int|
                0 <= i < t.len() ==> crate::domain::flow_valid(#[trigger] t[i]) {
                let (i, j) = choose|i: int, j: int|
                    0 <= i < j < t.len() && (#[trigger] t[i]).flow_id == (#[trigger] t[j]).flow_id;
                assert(flows[i].flow_id == flows[j].flow_id);
            } else {
                let i = choose|i: int|
                    0 <= i < t.len() && !crate::domain::flow_valid(#[trigger] t[i]);
                assert(flows[i] == t[i]);
            }
        } else if crate::collector::has_id(t, f.flow_id) {
            let i = choose|i: int| 0 <= i < t.len() && (#[trigger] t[i]).flow_id == f.flow_id;
            assert(flows[i].flow_id == flows[n].flow_id);
        } else {
            assert(!crate::domain::flow_valid(flows[n]));
        }
    }
}

/// The first flow of a batch with something wrong decides: it is reported as a duplicate where an
/// earlier flow has its identity, and as invalid otherwise.
pub proof fn the_first_problem_is_reported(flows: Seq<FlowView>, rest: Seq<FlowView>, f: FlowView)
    requires
        crate::collector::batch_problem(flows) is None,
        crate::collector::batch_problem(flows.push(f)) is Some,
    ensures
        crate::collector::batch_problem(flows.push(f) + rest) == crate::collector::batch_problem(
            flows.push(f),
        ),
        match crate::collector::batch_problem(flows.push(f))->0 {
            BatchProblem::Duplicate(id) => id == f.flow_id && exists|i: int|
                0 <= i < flows.len() && (#[trigger] flows[i]).flow_id == f.flow_id,
            BatchProblem::Invalid(id, reason) => id == f.flow_id && !crate::domain::flow_valid(f)
                && Some(reason) == crate::domain::flow_fault(f) && forall|i: int|
                0 <= i < flows.len() ==> (#[trigger] flows[i]).flow_id != f.flow_id,
        },
    decreases rest.len(),
{
    assert(flows.push(f).drop_last() =~= flows);
    if rest.len() > 0 {
        the_first_problem_is_reported(flows, rest.drop_last(), f);
        assert((flows.push(f) + rest).drop_last() =~= flows.push(f) + rest.drop_last());
    } else {
        assert(flows.push(f) + rest =~= flows.push(f));
    }
}

} // verus!
