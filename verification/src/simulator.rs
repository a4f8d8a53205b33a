//! A collector that makes its flows up, for trying the program out without a router.
use vstd::prelude::*;
use vstd::string::*;

use crate::collector::{validate_batch, CollectionResult, FlowCollector};
use crate::domain::{
    ConnectionState, DomainAttribution, DomainConfidence, DomainSource, Flow, FlowDirection,
};
use crate::num::{saturating_add_i64, saturating_mul_i64, saturating_mul_u64};
use crate::text::push_decimal;

verus! {

/// The interval where none is given, in seconds.
pub const DEFAULT_SIMULATOR_INTERVAL_SECS: u64 = 5;

/// How long an attribution of a made-up flow is valid, in milliseconds.
pub const ATTRIBUTION_LIFETIME_MS: i64 = 3_600_000;

/// Makes up two flows whose counters grow with every collection.
pub struct SimulatedCollector {
    pub start_ms: i64,
    pub step_ms: i64,
    pub session_id: u64,
    pub tick: u64,
}

/// The milliseconds between two collections.
pub open spec fn step_of(interval_secs: u64) -> i64 {
    crate::num::clamp_i64(
        crate::num::clamp_u64(
            (if interval_secs == 0 {
                1
            } else {
                interval_secs as int
            }) * 1_000,
        ) as int,
    )
}

/// The identity of a made-up flow.
pub open spec fn simulated_id(session_id: u64, name: Seq<char>) -> Seq<char> {
    "sim:v1:"@ + crate::text::decimal(session_id as nat) + seq![':'] + name
}

/// The time that the collection with the given number shows.
pub open spec fn simulated_time(start_ms: i64, step_ms: i64, tick: u64) -> i64 {
    crate::num::clamp_i64(
        start_ms + crate::num::clamp_i64(step_ms * crate::num::clamp_i64(tick - 1)),
    )
}

/// The first made-up flow after the given number of collections.
pub open spec fn first_flow(
    start_ms: i64,
    step_ms: i64,
    session_id: u64,
    tick: u64,
) -> crate::domain::FlowView {
    let last_seen = simulated_time(start_ms, step_ms, tick);
    crate::domain::FlowView {
        flow_id: simulated_id(session_id, "client-a-https"@),
        first_seen: start_ms,
        last_seen,
        protocol: "tcp"@,
        direction: FlowDirection::Bidirectional,
        lan_interface: "br-lan"@,
        wan_interface: "eth0"@,
        client_mac: "aa:bb:cc:dd:ee:01"@,
        client_ip: "192.168.1.10"@,
        client_port: 40_000,
        destination_ip: "93.184.216.34"@,
        destination_port: 443,
        nat_source_ip: Some("198.51.100.10"@),
        nat_source_port: Some(50_001),
        nat_destination_ip: Some("93.184.216.34"@),
        nat_destination_port: Some(443),
        upload_bytes: crate::num::clamp_u64(tick * 1_024),
        download_bytes: crate::num::clamp_u64(tick * 8_192),
        packet_count: crate::num::clamp_u64(tick * 20),
        domain: Some(
            crate::domain::AttributionView {
                domain: "example.com"@,
                source: DomainSource::Dns,
                confidence: DomainConfidence::High,
                associated_at: last_seen,
                expires_at: Some(crate::num::clamp_i64(last_seen + ATTRIBUTION_LIFETIME_MS)),
            },
        ),
        connection_state: ConnectionState::Established,
    }
}

/// The second made-up flow after the given number of collections.
pub open spec fn second_flow(
    start_ms: i64,
    step_ms: i64,
    session_id: u64,
    tick: u64,
) -> crate::domain::FlowView {
    let last_seen = simulated_time(start_ms, step_ms, tick);
    crate::domain::FlowView {
        flow_id: simulated_id(session_id, "client-b-https"@),
        first_seen: start_ms,
        last_seen,
        protocol: "tcp"@,
        direction: FlowDirection::Bidirectional,
        lan_interface: "br-lan"@,
        wan_interface: "eth0"@,
        client_mac: "aa:bb:cc:dd:ee:02"@,
        client_ip: "192.168.1.11"@,
        client_port: 40_001,
        destination_ip: "203.0.113.20"@,
        destination_port: 443,
        nat_source_ip: Some("198.51.100.10"@),
        nat_source_port: Some(50_002),
        nat_destination_ip: Some("203.0.113.20"@),
        nat_destination_port: Some(443),
        upload_bytes: crate::num::clamp_u64(tick * 512),
        download_bytes: crate::num::clamp_u64(tick * 16_384),
        packet_count: crate::num::clamp_u64(tick * 30),
        domain: Some(
            crate::domain::AttributionView {
                domain: "video.example.net"@,
                source: DomainSource::Sni,
                confidence: DomainConfidence::Low,
                associated_at: last_seen,
                expires_at: Some(crate::num::clamp_i64(last_seen + ATTRIBUTION_LIFETIME_MS)),
            },
        ),
        connection_state: ConnectionState::Established,
    }
}

/// The flows of the collection with the given number.
pub open spec fn simulated_flows(
    start_ms: i64,
    step_ms: i64,
    session_id: u64,
    tick: u64,
) -> Seq<crate::domain::FlowView> {
    seq![
        first_flow(start_ms, step_ms, session_id, tick),
        second_flow(start_ms, step_ms, session_id, tick),
    ]
}

/// The number of the collection that follows after the given count.
pub open spec fn next_tick(count: u64) -> u64 {
    if count == u64::MAX {
        u64::MAX
    } else {
        (count + 1) as u64
    }
}

impl SimulatedCollector {
    /// Starts with the default interval.
    pub fn new(start_ms: i64, session_id: u64) -> (r: Self)
        ensures
            r == (SimulatedCollector { start_ms, step_ms: 5_000, session_id, tick: 0 }),
    {
        Self::with_interval_secs(DEFAULT_SIMULATOR_INTERVAL_SECS, start_ms, session_id)
    }

    /// Starts with the given interval, which is at least a second.
    pub fn with_interval_secs(interval_secs: u64, start_ms: i64, session_id: u64) -> (r: Self)
        ensures
            r == (SimulatedCollector {
                start_ms,
                step_ms: step_of(interval_secs),
                session_id,
                tick: 0,
            }),
    {
        let secs: u64 = if interval_secs == 0 {
            1
        } else {
            interval_secs
        };
        let step: u64 = saturating_mul_u64(secs, 1_000);
        let step_ms: i64 = if step > i64::MAX as u64 {
            i64::MAX
        } else {
            step as i64
        };
        SimulatedCollector { start_ms, step_ms, session_id, tick: 0 }
    }

    /// The identity of the flow with the given name.
    pub fn flow_id(&self, name: &str) -> (r: String)
        ensures
            r@ == simulated_id(self.session_id, name@),
    {
        let mut out = "sim:v1:".to_owned();
        push_decimal(&mut out, self.session_id);
        out.push(':');
        out.append(name);
        proof {
            assert(out@ =~= simulated_id(self.session_id, name@));
        }
        out
    }

    fn first_flow(&self, tick: u64, last_seen: i64) -> (r: Flow)
        requires
            last_seen == simulated_time(self.start_ms, self.step_ms, tick),
        ensures
            r@ == first_flow(self.start_ms, self.step_ms, self.session_id, tick),
    {
        Flow {
            flow_id: self.flow_id("client-a-https"),
            first_seen: self.start_ms,
            last_seen,
            protocol: "tcp".to_owned(),
            direction: FlowDirection::Bidirectional,
            lan_interface: "br-lan".to_owned(),
            wan_interface: "eth0".to_owned(),
            client_mac: "aa:bb:cc:dd:ee:01".to_owned(),
            client_ip: "192.168.1.10".to_owned(),
            client_port: 40_000,
            destination_ip: "93.184.216.34".to_owned(),
            destination_port: 443,
            nat_source_ip: Some("198.51.100.10".to_owned()),
            nat_source_port: Some(50_001),
            nat_destination_ip: Some("93.184.216.34".to_owned()),
            nat_destination_port: Some(443),
            upload_bytes: saturating_mul_u64(tick, 1_024),
            download_bytes: saturating_mul_u64(tick, 8_192),
            packet_count: saturating_mul_u64(tick, 20),
            domain: Some(
                DomainAttribution {
                    domain: "example.com".to_owned(),
                    source: DomainSource::Dns,
                    confidence: DomainConfidence::High,
                    associated_at: last_seen,
                    expires_at: Some(saturating_add_i64(last_seen, ATTRIBUTION_LIFETIME_MS)),
                },
            ),
            connection_state: ConnectionState::Established,
        }
    }

    fn second_flow(&self, tick: u64, last_seen: i64) -> (r: Flow)
        requires
            last_seen == simulated_time(self.start_ms, self.step_ms, tick),
        ensures
            r@ == second_flow(self.start_ms, self.step_ms, self.session_id, tick),
    {
        Flow {
            flow_id: self.flow_id("client-b-https"),
            first_seen: self.start_ms,
            last_seen,
            protocol: "tcp".to_owned(),
            direction: FlowDirection::Bidirectional,
            lan_interface: "br-lan".to_owned(),
            wan_interface: "eth0".to_owned(),
            client_mac: "aa:bb:cc:dd:ee:02".to_owned(),
            client_ip: "192.168.1.11".to_owned(),
            client_port: 40_001,
            destination_ip: "203.0.113.20".to_owned(),
            destination_port: 443,
            nat_source_ip: Some("198.51.100.10".to_owned()),
            nat_source_port: Some(50_002),
            nat_destination_ip: Some("203.0.113.20".to_owned()),
            nat_destination_port: Some(443),
            upload_bytes: saturating_mul_u64(tick, 512),
            download_bytes: saturating_mul_u64(tick, 16_384),
            packet_count: saturating_mul_u64(tick, 30),
            domain: Some(
                DomainAttribution {
                    domain: "video.example.net".to_owned(),
                    source: DomainSource::Sni,
                    confidence: DomainConfidence::Low,
                    associated_at: last_seen,
                    expires_at: Some(saturating_add_i64(last_seen, ATTRIBUTION_LIFETIME_MS)),
                },
            ),
            connection_state: ConnectionState::Established,
        }
    }
}

impl FlowCollector for SimulatedCollector {
    fn source_name(&self) -> (r: &'static str)
        ensures
            r@ == "simulator"@,
    {
        "simulator"
    }

    /// Makes up the next two flows.
    fn collect(&mut self, now_ms: i64, now_ns: u64) -> (r: CollectionResult)
        ensures
            *final(self) == (SimulatedCollector {
                tick: if old(self).tick == u64::MAX {
                    0
                } else {
                    (old(self).tick + 1) as u64
                },
                ..*old(self)
            }),
            crate::collector::batch_result(
                r,
                "simulator"@,
                simulated_flows(
                    old(self).start_ms,
                    old(self).step_ms,
                    old(self).session_id,
                    next_tick(old(self).tick),
                ),
                now_ms,
            ),
    {
        let tick: u64 = self.tick.saturating_add(1);
        self.tick = self.tick.wrapping_add(1);
        let elapsed: u64 = tick - 1;
        let elapsed_ticks: i64 = if elapsed > i64::MAX as u64 {
            i64::MAX
        } else {
            elapsed as i64
        };
        let elapsed_ms: i64 = saturating_mul_i64(self.step_ms, elapsed_ticks);
        let last_seen: i64 = saturating_add_i64(self.start_ms, elapsed_ms);
        let mut flows: Vec<Flow> = Vec::new();
        flows.push(self.first_flow(tick, last_seen));
        flows.push(self.second_flow(tick, last_seen));
        proof {
            assert(crate::dns::flow_views(flows@) =~= simulated_flows(
                self.start_ms,
                self.step_ms,
                self.session_id,
                tick,
            ));
        }
        validate_batch("simulator", flows, now_ms)
    }
}

/// The made-up flows are valid and distinct, so a collection never fails.
pub proof fn simulated_batches_are_sound(start_ms: i64, step_ms: i64, session_id: u64, tick: u64)
    requires
        step_ms >= 0,
        tick > 0,
    ensures
        crate::collector::batch_problem(
            simulated_flows(start_ms, step_ms, session_id, tick),
        ) is None,
{
    let a = first_flow(start_ms, step_ms, session_id, tick);
    let b = second_flow(start_ms, step_ms, session_id, tick);
    let flows = simulated_flows(start_ms, step_ms, session_id, tick);
    reveal_strlit("tcp");
    reveal_strlit("aa:bb:cc:dd:ee:01");
    reveal_strlit("aa:bb:cc:dd:ee:02");
    reveal_strlit("192.168.1.10");
    reveal_strlit("192.168.1.11");
    reveal_strlit("93.184.216.34");
    reveal_strlit("203.0.113.20");
    reveal_strlit("client-a-https");
    reveal_strlit("client-b-https");
    assert(step_ms * crate::num::clamp_i64(tick - 1) >= 0) by (nonlinear_arith)
        requires
            step_ms >= 0,
            crate::num::clamp_i64(tick - 1) >= 0,
    ;
    let p = "sim:v1:"@ + crate::text::decimal(session_id as nat) + seq![':'];
    assert(a.flow_id[p.len() as int + 7] == 'a');
    assert(b.flow_id[p.len() as int + 7] == 'b');
    assert(flows.drop_last() =~= seq![a]);
    assert(flows.drop_last().drop_last() =~= Seq::<crate::domain::FlowView>::empty());
    assert(!crate::collector::has_id(Seq::<crate::domain::FlowView>::empty(), a.flow_id));
    assert(crate::collector::batch_problem(Seq::<crate::domain::FlowView>::empty()) is None);
    assert(crate::collector::batch_problem(seq![a]) is None);
}

/// From one collection to the next the flows keep their identity, no counter falls, and time does
/// not go back.
pub proof fn simulated_flows_only_grow(
    start_ms: i64,
    step_ms: i64,
    session_id: u64,
    tick: u64,
    later: u64,
)
    requires
        step_ms >= 0,
        0 < tick <= later,
    ensures
        ({
            let a = simulated_flows(start_ms, step_ms, session_id, tick);
            let b = simulated_flows(start_ms, step_ms, session_id, later);
            forall|i: int|
                0 <= i < 2 ==> {
                    &&& (#[trigger] a[i]).flow_id == b[i].flow_id
                    &&& a[i].first_seen == b[i].first_seen
                    &&& a[i].last_seen <= b[i].last_seen
                    &&& a[i].upload_bytes <= b[i].upload_bytes
                    &&& a[i].download_bytes <= b[i].download_bytes
                    &&& a[i].packet_count <= b[i].packet_count
                }
        }),
{
    let x = crate::num::clamp_i64(tick - 1);
    let y = crate::num::clamp_i64(later - 1);
    assert(step_ms * x <= step_ms * y) by (nonlinear_arith)
        requires
            step_ms >= 0,
            x <= y,
    ;
}

} // verus!
