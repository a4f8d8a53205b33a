//! Flows as the traffic-control program in the kernel counts them.
use vstd::prelude::*;
use vstd::string::*;

use crate::addr::Ipv4Address;
use crate::collector::{source_failure, validate_batch, CollectionResult, CollectorFailure};
use crate::domain::{ConnectionState, Flow, FlowDirection};
use crate::num::saturating_sub_i64;
use crate::text::{decimal_string, push_hex, push_hex_byte, trim};

verus! {

/// How long a flow may be silent before it is dropped from the kernel's map: five minutes.
pub const FLOW_IDLE_TIMEOUT_NS: u64 = 300_000_000_000;

/// By what the kernel tells flows apart. Addresses and ports are in the byte order of the machine.
#[derive(Debug, Clone, Copy, PartialEq, Eq)]
pub struct EbpfFlowKey {
    pub client_mac: [u8; 6],
    pub protocol: u8,
    pub client_ip: u32,
    pub destination_ip: u32,
    pub client_port: u16,
    pub destination_port: u16,
}

/// What the kernel counts of a flow. The times are of a clock that never goes back.
#[derive(Debug, Clone, Copy, PartialEq, Eq)]
pub struct EbpfFlowValue {
    pub first_seen_ns: u64,
    pub last_seen_ns: u64,
    pub upload_bytes: u64,
    pub download_bytes: u64,
    pub packet_count: u64,
}

/// The usual notation of a hardware address: six pairs of hexadecimal digits with colons between.
pub open spec fn mac_text(mac: [u8; 6]) -> Seq<char> {
    crate::text::hex_byte(mac@[0]) + seq![':'] + crate::text::hex_byte(mac@[1]) + seq![':']
        + crate::text::hex_byte(mac@[2]) + seq![':'] + crate::text::hex_byte(mac@[3]) + seq![':']
        + crate::text::hex_byte(mac@[4]) + seq![':'] + crate::text::hex_byte(mac@[5])
}

/// Writes a hardware address in the usual notation.
pub fn format_mac(mac: [u8; 6]) -> (r: String)
    ensures
        r@ == mac_text(mac),
{
    let mut out = String::new();
    push_hex_byte(&mut out, mac[0]);
    out.push(':');
    push_hex_byte(&mut out, mac[1]);
    out.push(':');
    push_hex_byte(&mut out, mac[2]);
    out.push(':');
    push_hex_byte(&mut out, mac[3]);
    out.push(':');
    push_hex_byte(&mut out, mac[4]);
    out.push(':');
    push_hex_byte(&mut out, mac[5]);
    proof {
        assert(out@ =~= mac_text(mac));
    }
    out
}

/// The nanoseconds of a clock that shows the given seconds and nanoseconds.
pub fn monotonic_ns(seconds: i64, nanoseconds: i64) -> (r: Result<u64, &'static str>)
    ensures
        match r {
            Ok(ns) => seconds >= 0 && nanoseconds >= 0 && ns == seconds * 1_000_000_000
                + nanoseconds,
            Err(e) => if seconds < 0 {
                e@ == "monotonic seconds are negative"@
            } else if nanoseconds < 0 {
                e@ == "monotonic nanoseconds are negative"@
            } else {
                e@ == "monotonic timestamp overflowed u64"@ && seconds * 1_000_000_000
                    + nanoseconds > u64::MAX
            },
        },
{
    if seconds < 0 {
        return Err("monotonic seconds are negative");
    }
    if nanoseconds < 0 {
        return Err("monotonic nanoseconds are negative");
    }
    let total: u128 = (seconds as u128) * 1_000_000_000 + nanoseconds as u128;
    if total > u64::MAX as u128 {
        return Err("monotonic timestamp overflowed u64");
    }
    Ok(total as u64)
}

/// The nanoseconds since an event, or none where the event lies ahead.
pub open spec fn age_ns(now_ns: u64, event_ns: u64) -> int {
    if event_ns > now_ns {
        0
    } else {
        now_ns - event_ns
    }
}

/// The time of the wall clock at which an event was, when the clock shows `observed_at_ms` now.
pub open spec fn wall_time(now_ns: u64, event_ns: u64, observed_at_ms: i64) -> i64 {
    crate::num::clamp_i64(observed_at_ms - age_ns(now_ns, event_ns) / 1_000_000)
}

/// Finds the time of the wall clock at which an event was.
pub fn monotonic_timestamp_ms(now_ns: u64, event_ns: u64, observed_at_ms: i64) -> (r: i64)
    ensures
        r == wall_time(now_ns, event_ns, observed_at_ms),
{
    let age: u64 = now_ns.saturating_sub(event_ns) / 1_000_000;
    saturating_sub_i64(observed_at_ms, age as i64)
}

/// The fields of a key from the protocol on.
pub open spec fn key_tail(key: EbpfFlowKey) -> Seq<char> {
    crate::text::decimal(key.protocol as nat) + seq![':'] + (crate::text::decimal(
        key.client_ip as nat,
    ) + seq![':'] + (crate::text::decimal(key.client_port as nat) + seq![':'] + (
    crate::text::decimal(key.destination_ip as nat) + seq![':'] + crate::text::decimal(
        key.destination_port as nat,
    ))))
}

/// Joins a field and what follows it by a colon.
fn with_field(field: String, rest: String) -> (r: String)
    ensures
        r@ == field@ + seq![':'] + rest@,
{
    let mut out = field;
    out.push(':');
    out.append(rest.as_str());
    proof {
        assert(out@ =~= field@ + seq![':'] + rest@);
    }
    out
}

/// Writes the fields of a key from the protocol on.
fn key_fields(key: &EbpfFlowKey) -> (r: String)
    ensures
        r@ == key_tail(*key),
{
    let destination = with_field(
        decimal_string(key.destination_ip as u64),
        decimal_string(key.destination_port as u64),
    );
    let client = with_field(decimal_string(key.client_port as u64), destination);
    let addresses = with_field(decimal_string(key.client_ip as u64), client);
    with_field(decimal_string(key.protocol as u64), addresses)
}

/// The text that identifies a flow: the session, when the flow was first seen, and the key.
pub open spec fn flow_id_text(session_id: u64, key: EbpfFlowKey, first_seen_ns: u64) -> Seq<char> {
    "tc:v1:"@ + (crate::text::decimal(session_id as nat) + seq![':'] + (crate::text::hex(
        first_seen_ns as nat,
    ) + seq![':'] + (mac_text(key.client_mac) + seq![':'] + key_tail(key))))
}

/// The name of a transport protocol.
pub open spec fn protocol_text(protocol: u8) -> Seq<char> {
    if protocol == 6 {
        "tcp"@
    } else if protocol == 17 {
        "udp"@
    } else {
        "unknown"@
    }
}

/// An entry of the kernel's map.
pub type EbpfEntry = (EbpfFlowKey, EbpfFlowValue);

/// The flow that an entry of the kernel's map describes.
pub open spec fn flow_of(
    lan: Seq<char>,
    wan: Seq<char>,
    session_id: u64,
    entry: EbpfEntry,
    now_ns: u64,
    observed_at_ms: i64,
) -> crate::domain::FlowView {
    crate::domain::FlowView {
        flow_id: flow_id_text(session_id, entry.0, entry.1.first_seen_ns),
        first_seen: wall_time(now_ns, entry.1.first_seen_ns, observed_at_ms),
        last_seen: wall_time(now_ns, entry.1.last_seen_ns, observed_at_ms),
        protocol: protocol_text(entry.0.protocol),
        direction: FlowDirection::Bidirectional,
        lan_interface: lan,
        wan_interface: wan,
        client_mac: mac_text(entry.0.client_mac),
        client_ip: Ipv4Address::of_number(entry.0.client_ip).text(),
        client_port: entry.0.client_port,
        destination_ip: Ipv4Address::of_number(entry.0.destination_ip).text(),
        destination_port: entry.0.destination_port,
        nat_source_ip: None,
        nat_source_port: None,
        nat_destination_ip: None,
        nat_destination_port: None,
        upload_bytes: entry.1.upload_bytes,
        download_bytes: entry.1.download_bytes,
        packet_count: entry.1.packet_count,
        domain: None,
        connection_state: ConnectionState::Unknown,
    }
}

/// The flow was silent for too long.
pub open spec fn is_idle(value: EbpfFlowValue, now_ns: u64) -> bool {
    age_ns(now_ns, value.last_seen_ns) > FLOW_IDLE_TIMEOUT_NS
}

/// The keys of the entries that are idle, in order.
pub open spec fn idle_keys(entries: Seq<EbpfEntry>, now_ns: u64) -> Seq<EbpfFlowKey>
    decreases entries.len(),
{
    if entries.len() == 0 {
        seq![]
    } else if is_idle(entries.last().1, now_ns) {
        idle_keys(entries.drop_last(), now_ns).push(entries.last().0)
    } else {
        idle_keys(entries.drop_last(), now_ns)
    }
}

/// The entries that are not idle, in order.
pub open spec fn live_entries(entries: Seq<EbpfEntry>, now_ns: u64) -> Seq<EbpfEntry>
    decreases entries.len(),
{
    if entries.len() == 0 {
        seq![]
    } else if is_idle(entries.last().1, now_ns) {
        live_entries(entries.drop_last(), now_ns)
    } else {
        live_entries(entries.drop_last(), now_ns).push(entries.last())
    }
}

/// Turns the entries of the kernel's map into flows.
pub struct TcEbpfCollector {
    pub lan_interface: String,
    pub wan_interface: String,
    pub session_id: u64,
}

impl TcEbpfCollector {
    /// The flows that the entries describe.
    pub open spec fn flows(
        self,
        entries: Seq<EbpfEntry>,
        now_ns: u64,
        observed_at_ms: i64,
    ) -> Seq<crate::domain::FlowView> {
        entries.map_values(
            |e: EbpfEntry|
                flow_of(
                    self.lan_interface@,
                    self.wan_interface@,
                    self.session_id,
                    e,
                    now_ns,
                    observed_at_ms,
                ),
        )
    }

    /// Makes a collector for a pair of interfaces. Neither name may be blank.
    pub fn new(
        lan_interface: String,
        wan_interface: String,
        session_id: u64,
        now_ms: i64,
    ) -> (r: Result<Self, CollectorFailure>)
        ensures
            match r {
                Ok(c) => {
                    &&& crate::text::trim_spec(lan_interface@).len() > 0
                    &&& crate::text::trim_spec(wan_interface@).len() > 0
                    &&& c.lan_interface@ == lan_interface@
                    &&& c.wan_interface@ == wan_interface@
                    &&& c.session_id == session_id
                },
                Err(f) => if crate::text::trim_spec(lan_interface@).len() == 0 {
                    crate::collector::is_source_failure(
                        f,
                        "tc-ebpf"@,
                        "LAN interface must not be empty"@,
                        now_ms,
                    )
                } else {
                    &&& crate::text::trim_spec(wan_interface@).len() == 0
                    &&& crate::collector::is_source_failure(
                        f,
                        "tc-ebpf"@,
                        "WAN interface must not be empty"@,
                        now_ms,
                    )
                },
            },
    {
        if crate::domain::is_blank(&trim(lan_interface.as_str())) {
            return Err(source_failure("tc-ebpf", "LAN interface must not be empty", now_ms));
        }
        if crate::domain::is_blank(&trim(wan_interface.as_str())) {
            return Err(source_failure("tc-ebpf", "WAN interface must not be empty", now_ms));
        }
        Ok(TcEbpfCollector { lan_interface, wan_interface, session_id })
    }

    /// The name of the source.
    pub fn source_name(&self) -> (r: &'static str)
        ensures
            r@ == "tc-ebpf"@,
    {
        "tc-ebpf"
    }

    /// Identifies the flow of an entry.
    pub fn flow_id(&self, key: &EbpfFlowKey, value: &EbpfFlowValue) -> (r: String)
        ensures
            r@ == flow_id_text(self.session_id, *key, value.first_seen_ns),
    {
        let mut out = "tc:v1:".to_owned();
        let mut started = String::new();
        push_hex(&mut started, value.first_seen_ns);
        proof {
            assert(started@ =~= crate::text::hex(value.first_seen_ns as nat));
        }
        let key_text = with_field(format_mac(key.client_mac), key_fields(key));
        let session = decimal_string(self.session_id);
        out.append(with_field(session, with_field(started, key_text)).as_str());
        out
    }

    /// Makes the flow of an entry.
    pub fn flow_from_entry(
        &self,
        key: EbpfFlowKey,
        value: EbpfFlowValue,
        now_ns: u64,
        observed_at_ms: i64,
    ) -> (r: Flow)
        ensures
            r@ == flow_of(
                self.lan_interface@,
                self.wan_interface@,
                self.session_id,
                (key, value),
                now_ns,
                observed_at_ms,
            ),
    {
        let protocol = if key.protocol == 6 {
            "tcp"
        } else if key.protocol == 17 {
            "udp"
        } else {
            "unknown"
        };
        Flow {
            flow_id: self.flow_id(&key, &value),
            first_seen: monotonic_timestamp_ms(now_ns, value.first_seen_ns, observed_at_ms),
            last_seen: monotonic_timestamp_ms(now_ns, value.last_seen_ns, observed_at_ms),
            protocol: protocol.to_owned(),
            direction: FlowDirection::Bidirectional,
            lan_interface: self.lan_interface.clone(),
            wan_interface: self.wan_interface.clone(),
            client_mac: format_mac(key.client_mac),
            client_ip: Ipv4Address::from_number(key.client_ip).to_text(),
            client_port: key.client_port,
            destination_ip: Ipv4Address::from_number(key.destination_ip).to_text(),
            destination_port: key.destination_port,
            nat_source_ip: None,
            nat_source_port: None,
            nat_destination_ip: None,
            nat_destination_port: None,
            upload_bytes: value.upload_bytes,
            download_bytes: value.download_bytes,
            packet_count: value.packet_count,
            domain: None,
            connection_state: ConnectionState::Unknown,
        }
    }

    /// Turns the entries of the kernel's map into a batch. The keys that come with it are those of
    /// idle flows, which are left out of the batch and are to be removed from the map.
    pub fn collect_entries(
        &self,
        entries: &Vec<EbpfEntry>,
        now_ns: u64,
        observed_at_ms: i64,
    ) -> (r: (Vec<EbpfFlowKey>, CollectionResult))
        ensures
            r.0@ == idle_keys(entries@, now_ns),
            crate::collector::batch_result(
                r.1,
                "tc-ebpf"@,
                self.flows(live_entries(entries@, now_ns), now_ns, observed_at_ms),
                observed_at_ms,
            ),
    {
        let mut idle: Vec<EbpfFlowKey> = Vec::new();
        let mut flows: Vec<Flow> = Vec::new();
        let mut i: usize = 0;
        while i < entries.len()
            invariant
                i <= entries@.len(),
                idle@ == idle_keys(entries@.take(i as int), now_ns),
                crate::dns::flow_views(flows@) == self.flows(
                    live_entries(entries@.take(i as int), now_ns),
                    now_ns,
                    observed_at_ms,
                ),
            decreases entries@.len() - i,
        {
            let (key, value) = entries[i];
            proof {
                assert(entries@.take(i + 1).drop_last() =~= entries@.take(i as int));
                assert(entries@.take(i + 1).last() == (key, value));
            }
            let ghost live = live_entries(entries@.take(i as int), now_ns);
            if now_ns.saturating_sub(value.last_seen_ns) > FLOW_IDLE_TIMEOUT_NS {
                idle.push(key);
            } else {
                let ghost before = crate::dns::flow_views(flows@);
                let flow = self.flow_from_entry(key, value, now_ns, observed_at_ms);
                flows.push(flow);
                proof {
                    assert(crate::dns::flow_views(flows@) =~= before.push(flow@));
                    assert(self.flows(live.push((key, value)), now_ns, observed_at_ms)
                        =~= self.flows(live, now_ns, observed_at_ms).push(flow@));
                }
            }
            i = i + 1;
        }
        proof {
            assert(entries@.take(i as int) =~= entries@);
        }
        let batch = validate_batch(self.source_name(), flows, observed_at_ms);
        (idle, batch)
    }
}

proof fn lemma_no_colon_decimal(n: nat)
    ensures
        !crate::text::contains_char(crate::text::decimal(n), ':'),
{
    crate::text::lemma_decimal_shape(n);
    let s = crate::text::decimal(n);
    assert forall|i: int| 0 <= i < s.len() implies s[i] != ':' by {
        assert(crate::text::is_digit(s[i]));
    }
}

proof fn lemma_hex_shape(n: nat)
    ensures
        crate::text::hex(n).len() > 0,
        !crate::text::contains_char(crate::text::hex(n), ':'),
    decreases n,
{
    let s = crate::text::hex(n);
    if n >= 16 {
        lemma_hex_shape(n / 16);
        let t = crate::text::hex(n / 16);
        assert forall|i: int| 0 <= i < s.len() implies s[i] != ':' by {
            if i < t.len() {
                assert(s[i] == t[i]);
            }
        }
    }
}

proof fn lemma_hex_distinct(a: nat, b: nat)
    requires
        crate::text::hex(a) == crate::text::hex(b),
    ensures
        a == b,
    decreases a,
{
    let s = crate::text::hex(a);
    let t = crate::text::hex(b);
    lemma_hex_shape(a / 16);
    lemma_hex_shape(b / 16);
    assert(s.last() == crate::text::hex_char((a % 16) as int));
    assert(t.last() == crate::text::hex_char((b % 16) as int));
    assert(a % 16 == b % 16);
    if a >= 16 {
        assert(s.drop_last() =~= crate::text::hex(a / 16));
        if b >= 16 {
            assert(t.drop_last() =~= crate::text::hex(b / 16));
            lemma_hex_distinct(a / 16, b / 16);
        }
    } else if b >= 16 {
        assert(t.drop_last() =~= crate::text::hex(b / 16));
    }
}

proof fn lemma_mac_distinct(a: [u8; 6], b: [u8; 6])
    requires
        mac_text(a) == mac_text(b),
    ensures
        a == b,
{
    let s = mac_text(a);
    let t = mac_text(b);
    assert forall|k: int| 0 <= k < 6 implies #[trigger] a@[k] == b@[k] by {
        assert(s[3 * k] == t[3 * k]);
        assert(s[3 * k + 1] == t[3 * k + 1]);
        assert(s[3 * k] == crate::text::hex_char(a@[k] as int / 16));
        assert(s[3 * k + 1] == crate::text::hex_char(a@[k] as int % 16));
        assert(t[3 * k] == crate::text::hex_char(b@[k] as int / 16));
        assert(t[3 * k + 1] == crate::text::hex_char(b@[k] as int % 16));
    }
    assert(a@ =~= b@);
    assert(a =~= b);
}

/// What stands before the first colon, and what follows it, are the same in equal texts.
proof fn lemma_field(a: Seq<char>, x: Seq<char>, b: Seq<char>, y: Seq<char>)
    requires
        !crate::text::contains_char(a, ':'),
        !crate::text::contains_char(b, ':'),
        a + seq![':'] + x == b + seq![':'] + y,
    ensures
        a == b,
        x == y,
{
    let s = a + seq![':'] + x;
    let t = b + seq![':'] + y;
    assert(s[a.len() as int] == ':');
    assert(t[b.len() as int] == ':');
    if a.len() < b.len() {
        assert(t[a.len() as int] == b[a.len() as int]);
    }
    if b.len() < a.len() {
        assert(s[b.len() as int] == a[b.len() as int]);
    }
    assert forall|i: int| 0 <= i < a.len() implies a[i] == b[i] by {
        assert(s[i] == a[i] && t[i] == b[i]);
    }
    assert(a =~= b);
    assert(s.len() == a.len() + 1 + x.len() && t.len() == b.len() + 1 + y.len());
    assert forall|i: int| 0 <= i < x.len() implies x[i] == y[i] by {
        assert(s[a.len() + 1 + i] == x[i] && t[a.len() + 1 + i] == y[i]);
    }
    assert(x =~= y);
}

proof fn lemma_key_tail_distinct(a: EbpfFlowKey, b: EbpfFlowKey)
    requires
        key_tail(a) == key_tail(b),
    ensures
        a.protocol == b.protocol,
        a.client_ip == b.client_ip,
        a.client_port == b.client_port,
        a.destination_ip == b.destination_ip,
        a.destination_port == b.destination_port,
{
    let d = |n: nat| crate::text::decimal(n);
    lemma_no_colon_decimal(a.protocol as nat);
    lemma_no_colon_decimal(b.protocol as nat);
    lemma_no_colon_decimal(a.client_ip as nat);
    lemma_no_colon_decimal(b.client_ip as nat);
    lemma_no_colon_decimal(a.client_port as nat);
    lemma_no_colon_decimal(b.client_port as nat);
    lemma_no_colon_decimal(a.destination_ip as nat);
    lemma_no_colon_decimal(b.destination_ip as nat);
    let a4 = d(a.destination_port as nat);
    let b4 = d(b.destination_port as nat);
    let a3 = d(a.destination_ip as nat) + seq![':'] + a4;
    let b3 = d(b.destination_ip as nat) + seq![':'] + b4;
    let a2 = d(a.client_port as nat) + seq![':'] + a3;
    let b2 = d(b.client_port as nat) + seq![':'] + b3;
    let a1 = d(a.client_ip as nat) + seq![':'] + a2;
    let b1 = d(b.client_ip as nat) + seq![':'] + b2;
    lemma_field(d(a.protocol as nat), a1, d(b.protocol as nat), b1);
    lemma_field(d(a.client_ip as nat), a2, d(b.client_ip as nat), b2);
    lemma_field(d(a.client_port as nat), a3, d(b.client_port as nat), b3);
    lemma_field(d(a.destination_ip as nat), a4, d(b.destination_ip as nat), b4);
    crate::text::lemma_decimal_shape(a.protocol as nat);
    crate::text::lemma_decimal_shape(b.protocol as nat);
    crate::text::lemma_decimal_shape(a.client_ip as nat);
    crate::text::lemma_decimal_shape(b.client_ip as nat);
    crate::text::lemma_decimal_shape(a.client_port as nat);
    crate::text::lemma_decimal_shape(b.client_port as nat);
    crate::text::lemma_decimal_shape(a.destination_ip as nat);
    crate::text::lemma_decimal_shape(b.destination_ip as nat);
    crate::text::lemma_decimal_shape(a.destination_port as nat);
    crate::text::lemma_decimal_shape(b.destination_port as nat);
}

/// Two flows have the same identity only where session, start and key are the same: no two entries
/// of the kernel's map are taken for one flow, and a flow that starts anew is a new flow.
pub proof fn flow_ids_are_distinct(
    s: u64,
    a: EbpfFlowKey,
    first_a: u64,
    t: u64,
    b: EbpfFlowKey,
    first_b: u64,
)
    requires
        flow_id_text(s, a, first_a) == flow_id_text(t, b, first_b),
    ensures
        s == t,
        a == b,
        first_a == first_b,
{
    let p = "tc:v1:"@;
    let (sa, sb) = (crate::text::decimal(s as nat), crate::text::decimal(t as nat));
    let (ha, hb) = (crate::text::hex(first_a as nat), crate::text::hex(first_b as nat));
    let (ma, mb) = (mac_text(a.client_mac), mac_text(b.client_mac));
    let (ka, kb) = (ma + seq![':'] + key_tail(a), mb + seq![':'] + key_tail(b));
    let (ra, rb) = (ha + seq![':'] + ka, hb + seq![':'] + kb);
    let (wa, wb) = (sa + seq![':'] + ra, sb + seq![':'] + rb);
    assert(wa =~= (p + wa).skip(p.len() as int));
    assert(wb =~= (p + wb).skip(p.len() as int));
    lemma_no_colon_decimal(s as nat);
    lemma_no_colon_decimal(t as nat);
    lemma_field(sa, ra, sb, rb);
    crate::text::lemma_decimal_shape(s as nat);
    crate::text::lemma_decimal_shape(t as nat);
    lemma_hex_shape(first_a as nat);
    lemma_hex_shape(first_b as nat);
    lemma_field(ha, ka, hb, kb);
    lemma_hex_distinct(first_a as nat, first_b as nat);
    assert(ma.len() == 17 && mb.len() == 17);
    assert(ma =~= ka.take(17));
    assert(mb =~= kb.take(17));
    assert(key_tail(a) =~= ka.skip(18));
    assert(key_tail(b) =~= kb.skip(18));
    lemma_mac_distinct(a.client_mac, b.client_mac);
    lemma_key_tail_distinct(a, b);
}

/// No key occurs twice, and no flow ends before it starts.
pub open spec fn is_kernel_map(entries: Seq<EbpfEntry>) -> bool {
    &&& forall|i: int, j: int|
        0 <= i < j < entries.len() ==> (#[trigger] entries[i]).0 != (#[trigger] entries[j]).0
    &&& forall|i: int|
        0 <= i < entries.len() ==> (#[trigger] entries[i]).1.first_seen_ns
            <= entries[i].1.last_seen_ns
}

proof fn lemma_live_is_kernel_map(entries: Seq<EbpfEntry>, now_ns: u64)
    requires
        is_kernel_map(entries),
    ensures
        is_kernel_map(live_entries(entries, now_ns)),
        forall|i: int|
            #![trigger live_entries(entries, now_ns)[i]]
            0 <= i < live_entries(entries, now_ns).len() ==> exists|j: int|
                0 <= j < entries.len() && #[trigger] entries[j] == live_entries(entries, now_ns)[i],
    decreases entries.len(),
{
    if entries.len() > 0 {
        let t = entries.drop_last();
        assert(is_kernel_map(t)) by {
            assert forall|i: int, j: int| 0 <= i < j < t.len() implies (#[trigger] t[i]).0 != (
            #[trigger] t[j]).0 by {
                assert(entries[i].0 != entries[j].0);
            }
            assert forall|i: int| 0 <= i < t.len() implies (#[trigger] t[i]).1.first_seen_ns
                <= t[i].1.last_seen_ns by {
                assert(entries[i].1.first_seen_ns <= entries[i].1.last_seen_ns);
            }
        }
        lemma_live_is_kernel_map(t, now_ns);
        let live = live_entries(t, now_ns);
        let all = live_entries(entries, now_ns);
        assert forall|i: int| 0 <= i < all.len() implies exists|j: int|
            0 <= j < entries.len() && #[trigger] entries[j] == #[trigger] all[i] by {
            if i < live.len() {
                assert(all[i] == live[i]);
                let j = choose|j: int| 0 <= j < t.len() && #[trigger] t[j] == live[i];
                assert(entries[j] == all[i]);
            } else {
                assert(entries[entries.len() - 1] == all[i]);
            }
        }
        assert forall|i: int, j: int| 0 <= i < j < all.len() implies (#[trigger] all[i]).0 != (
        #[trigger] all[j]).0 by {
            assert(all[i] == live[i]);
            if j < live.len() {
                assert(all[j] == live[j]);
            } else {
                let k = choose|k: int| 0 <= k < t.len() && #[trigger] t[k] == live[i];
                assert(entries[k].0 != entries[entries.len() - 1].0);
            }
        }
    }
}

proof fn lemma_no_problem(
    c: TcEbpfCollector,
    entries: Seq<EbpfEntry>,
    now_ns: u64,
    observed_at_ms: i64,
)
    requires
        is_kernel_map(entries),
    ensures
        crate::collector::batch_problem(c.flows(entries, now_ns, observed_at_ms)) is None,
    decreases entries.len(),
{
    if entries.len() > 0 {
        let t = entries.drop_last();
        let e = entries.last();
        assert(is_kernel_map(t)) by {
            assert forall|i: int, j: int| 0 <= i < j < t.len() implies (#[trigger] t[i]).0 != (
            #[trigger] t[j]).0 by {
                assert(entries[i].0 != entries[j].0);
            }
            assert forall|i: int| 0 <= i < t.len() implies (#[trigger] t[i]).1.first_seen_ns
                <= t[i].1.last_seen_ns by {
                assert(entries[i].1.first_seen_ns <= entries[i].1.last_seen_ns);
            }
        }
        lemma_no_problem(c, t, now_ns, observed_at_ms);
        let all = c.flows(entries, now_ns, observed_at_ms);
        let part = c.flows(t, now_ns, observed_at_ms);
        assert(all.drop_last() =~= part);
        assert(!crate::collector::has_id(part, all.last().flow_id)) by {
            if crate::collector::has_id(part, all.last().flow_id) {
                let i = choose|i: int|
                    0 <= i < part.len() && (#[trigger] part[i]).flow_id == all.last().flow_id;
                flow_ids_are_distinct(
                    c.session_id,
                    t[i].0,
                    t[i].1.first_seen_ns,
                    c.session_id,
                    e.0,
                    e.1.first_seen_ns,
                );
                assert(entries[i].0 != entries[entries.len() - 1].0);
            }
        }
        assert(crate::domain::flow_fault(all.last()) is None) by {
            reveal_strlit("tcp");
            reveal_strlit("udp");
            reveal_strlit("unknown");
            crate::text::lemma_decimal_shape(Ipv4Address::of_number(e.0.client_ip).a as nat);
            crate::text::lemma_decimal_shape(Ipv4Address::of_number(e.0.destination_ip).a as nat);
            crate::text::lemma_decimal_shape(c.session_id as nat);
            assert(entries[entries.len() - 1].1.first_seen_ns <= e.1.last_seen_ns);
            assert(age_ns(now_ns, e.1.first_seen_ns) >= age_ns(now_ns, e.1.last_seen_ns));
        }
    }
}

/// What the kernel's map holds always makes a batch: as no key occurs twice and no flow ends before
/// it starts, every flow is valid and no identity occurs twice.
pub proof fn kernel_entries_make_a_valid_batch(
    c: TcEbpfCollector,
    entries: Seq<EbpfEntry>,
    now_ns: u64,
    observed_at_ms: i64,
)
    requires
        is_kernel_map(entries),
    ensures
        crate::collector::batch_problem(
            c.flows(live_entries(entries, now_ns), now_ns, observed_at_ms),
        ) is None,
{
    lemma_live_is_kernel_map(entries, now_ns);
    lemma_no_problem(c, live_entries(entries, now_ns), now_ns, observed_at_ms);
}

} // verus!
