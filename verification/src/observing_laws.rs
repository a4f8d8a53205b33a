//! What is reported of collections, what the simulator makes up, what is learned from answers, and
//! how settings are read.
use vstd::prelude::*;

use crate::addr::IpAddress;
use crate::collector::{
    BatchProblem, CollectionBatch, CollectionResult, CollectorError, CollectorFailure, HealthView,
};
use crate::conntrack::ConntrackSnapshot;
use crate::dns_message::{DnsRecord, MessageView};
use crate::domain::FlowView;
use crate::state::SnapshotView;

verus! {

/// Whoever asks before the first collection is told that none took place, and that the program is
/// ready only where nothing is to be collected.
pub proof fn nothing_is_reported_before_the_first_collection(source: Option<Seq<char>>)
    ensures
        ({
            let s = crate::state::started(source);
            &&& s.enabled <==> source is Some
            &&& s.ready <==> source is None
            &&& s.source == source
            &&& source is Some ==> s.state == "starting"@
            &&& source is None ==> s.state == "disabled"@
            &&& s.observed_at_ms is None
            &&& s.last_success_at_ms is None
            &&& s.last_error is None
            &&& s.flows_seen == 0
            &&& s.flows_emitted == 0
            &&& s.flows_ingested == 0
            &&& s.consecutive_failures == 0
        }),
{
}

/// What is reported after a collection tells of that collection, whatever became of it: when it
/// was, how many flows were seen and handed on, and how the collector feels. What is collected from
/// stays as it is.
pub proof fn reports_tell_of_the_last_collection(
    s: SnapshotView,
    health: HealthView,
    ingested: Result<usize, Seq<char>>,
)
    ensures
        forall|after: SnapshotView| #[trigger]
            follows(s, after, health, ingested) ==> {
                &&& after.enabled == s.enabled
                &&& after.source == s.source
                &&& after.observed_at_ms == Some(health.observed_at_ms)
                &&& after.flows_seen == health.flows_seen
                &&& after.flows_emitted == health.flows_emitted
                &&& health.state is Healthy ==> after.state == "healthy"@
                &&& health.state is Degraded ==> after.state == "degraded"@
                &&& health.state is Unhealthy ==> after.state == "unhealthy"@
            },
{
}

/// One report follows another after a collection.
pub open spec fn follows(
    s: SnapshotView,
    after: SnapshotView,
    health: HealthView,
    ingested: Result<usize, Seq<char>>,
) -> bool {
    after == crate::state::after_batch(s, health, ingested) || after
        == crate::state::after_failure(s, health)
}

/// A batch that was stored adds its flows to those stored before, ends a row of failures and makes
/// the program ready, unless the collector is unhealthy.
pub proof fn stored_batches_are_counted(s: SnapshotView, health: HealthView, n: usize)
    ensures
        ({
            let after = crate::state::after_batch(s, health, Ok(n));
            &&& s.flows_ingested + n <= usize::MAX ==> after.flows_ingested - s.flows_ingested == n
            &&& s.flows_ingested + n > usize::MAX ==> after.flows_ingested == usize::MAX
            &&& after.last_success_at_ms == Some(health.observed_at_ms)
            &&& after.consecutive_failures == 0
            &&& after.last_error == health.last_error
            &&& after.ready <==> health.state is Healthy || health.state is Degraded
        }),
{
}

/// A collection that failed, or a batch that could not be stored, is one more in the row of
/// failures; the program is not ready, the reason is reported, and what was stored stays counted.
pub proof fn failures_are_counted(s: SnapshotView, health: HealthView, error: Seq<char>)
    ensures
        ({
            let unstored = crate::state::after_batch(s, health, Err(error));
            let failed = crate::state::after_failure(s, health);
            &&& unstored.last_error == Some(error)
            &&& failed.last_error == health.last_error
            &&& !unstored.ready && !failed.ready
            &&& unstored.flows_ingested == s.flows_ingested == failed.flows_ingested
            &&& unstored.last_success_at_ms == s.last_success_at_ms
            &&& failed.last_success_at_ms == s.last_success_at_ms
            &&& unstored.consecutive_failures == failed.consecutive_failures
            &&& failed.consecutive_failures == if s.consecutive_failures == u64::MAX {
                u64::MAX as int
            } else {
                s.consecutive_failures + 1
            }
        }),
{
}

/// A batch is handed on as a whole, as it came, where all its flows are sound and distinct, and the
/// collector is then healthy; one flow that is not so keeps back all of them, and the collector is
/// then degraded, and says which flow and why.
pub proof fn batches_are_handed_on_whole_or_not_at_all(
    r: CollectionResult,
    source: Seq<char>,
    flows: Seq<FlowView>,
    now_ms: i64,
)
    requires
        crate::collector::batch_result(r, source, flows, now_ms),
        flows.len() <= usize::MAX,
    ensures
        r is Ok <==> crate::collector::batch_problem(flows) is None,
        r matches Ok(batch) ==> {
            &&& batch.flows@.len() == flows.len()
            &&& forall|i: int| 0 <= i < flows.len() ==> (#[trigger] batch.flows@[i])@ == flows[i]
            &&& batch.observed_at_ms == now_ms
            &&& batch.health@.state is Healthy
            &&& batch.health@.observed_at_ms == now_ms
            &&& batch.health@.flows_seen == flows.len()
            &&& batch.health@.flows_emitted == flows.len()
            &&& batch.health@.last_error is None
        },
        r matches Err(failure) ==> {
            &&& failure.health@.state is Degraded
            &&& failure.health@.observed_at_ms == now_ms
            &&& failure.health@.flows_seen == flows.len()
            &&& failure.health@.flows_emitted == 0
            &&& failure.health@.last_error == Some(failure.error.text())
        },
        r matches Err(failure) ==> match crate::collector::batch_problem(flows) {
            Some(BatchProblem::Duplicate(id)) => failure.error.text() == source
                + " emitted duplicate flow_id "@ + id,
            Some(BatchProblem::Invalid(id, why)) => failure.error.text() == source
                + " produced invalid flow "@ + id + ": "@ + why,
            None => false,
        },
{
    if r is Ok {
        let batch = r->Ok_0;
        assert forall|i: int| 0 <= i < flows.len() implies (#[trigger] batch.flows@[i])@
            == flows[i] by {
            assert(crate::dns::flow_views(batch.flows@)[i] == batch.flows@[i]@);
        }
    }
}

/// A source that cannot be read is reported as such, with nothing seen.
pub proof fn missing_sources_are_unhealthy(
    f: CollectorFailure,
    source: Seq<char>,
    message: Seq<char>,
    now_ms: i64,
)
    requires
        crate::collector::is_source_failure(f, source, message, now_ms),
    ensures
        f.error is SourceUnavailable,
        f.error.text() == source + " source unavailable: "@ + message,
        f.health@.state is Unhealthy,
        f.health@.observed_at_ms == now_ms,
        f.health@.flows_seen == 0,
        f.health@.flows_emitted == 0,
        f.health@.last_error == Some(f.error.text()),
{
}

/// A counter that went back is described with the flow and both of its counts.
pub proof fn counters_that_went_back_are_described(e: CollectorError)
    requires
        e is CounterReset,
    ensures
        ({
            let before = e->reset.previous;
            let after = e->reset.current;
            e.text() == e->CounterReset_source@ + " counter reset for flow "@
                + e->CounterReset_flow_id@ + ": "@ + (
            "flow counter decreased: previous="@ + (
            "FlowCounters { upload_bytes: "@ + crate::text::decimal(before.upload_bytes as nat)
                + ", download_bytes: "@ + crate::text::decimal(before.download_bytes as nat)
                + ", packet_count: "@ + crate::text::decimal(before.packet_count as nat) + " }"@)
                + ", current="@ + (
            "FlowCounters { upload_bytes: "@ + crate::text::decimal(after.upload_bytes as nat)
                + ", download_bytes: "@ + crate::text::decimal(after.download_bytes as nat)
                + ", packet_count: "@ + crate::text::decimal(after.packet_count as nat) + " }"@))
        }),
{
}

/// Where the kernel's table of connections cannot be read, the flows are handed on as they are and
/// the collector is degraded; where it can, the report stays as it is and each flow stays in its
/// place.
pub proof fn flows_are_handed_on_without_the_table(
    batch: CollectionBatch,
    snapshot: Result<ConntrackSnapshot, String>,
    r: CollectionBatch,
    i: int,
)
    requires
        crate::collector::batch_enriched(batch, snapshot, r),
        batch.flows@.len() <= usize::MAX,
        0 <= i < batch.flows@.len(),
    ensures
        r.observed_at_ms == batch.observed_at_ms,
        r.flows@.len() == batch.flows@.len(),
        r.flows@[i]@.flow_id == batch.flows@[i]@.flow_id,
        r.flows@[i]@.upload_bytes == batch.flows@[i]@.upload_bytes,
        r.flows@[i]@.download_bytes == batch.flows@[i]@.download_bytes,
        r.flows@[i]@.packet_count == batch.flows@[i]@.packet_count,
        snapshot is Ok ==> r.health@ == batch.health@,
        snapshot matches Err(e) ==> {
            &&& r.flows@ == batch.flows@
            &&& r.health@.state is Degraded
            &&& r.health@.last_error == Some(e@)
            &&& r.health@.flows_emitted == batch.flows@.len()
            &&& r.health@.flows_seen == batch.health@.flows_seen
            &&& r.health@.observed_at_ms == batch.health@.observed_at_ms
        },
{
}

/// The simulator moves on by its interval with each collection, by a second at least.
pub proof fn simulated_time_goes_by_the_interval(interval_secs: u64, start_ms: i64, tick: u64)
    requires
        interval_secs <= 1_000_000,
        tick <= 1_000_000,
        0 <= start_ms <= 1_000_000_000_000_000,
    ensures
        ({
            let step = crate::simulator::step_of(interval_secs);
            &&& crate::simulator::simulated_time(start_ms, step, 1) == start_ms
            &&& tick >= 1 ==> crate::simulator::simulated_time(start_ms, step, (tick + 1) as u64)
                - crate::simulator::simulated_time(start_ms, step, tick) == 1_000 * (
            if interval_secs == 0 {
                1
            } else {
                interval_secs as int
            })
        }),
{
    let step = crate::simulator::step_of(interval_secs);
    assert(step * 0 == 0) by (nonlinear_arith);
    if tick >= 1 {
        assert(0 <= step * (tick - 1) <= 1_000_000_000 * 1_000_000) by (nonlinear_arith)
            requires
                0 <= step <= 1_000_000_000,
                1 <= tick <= 1_000_000,
        ;
        assert(step * tick == step * (tick - 1) + step) by (nonlinear_arith);
    }
}

/// With each collection the simulated flows grow by the same amounts.
pub proof fn simulated_flows_grow_evenly(
    start_ms: i64,
    step_ms: i64,
    session_id: u64,
    tick: u64,
)
    requires
        tick <= 1_000_000_000_000_000,
    ensures
        ({
            let a = crate::simulator::first_flow(start_ms, step_ms, session_id, tick);
            let b = crate::simulator::second_flow(start_ms, step_ms, session_id, tick);
            let c = crate::simulator::first_flow(start_ms, step_ms, session_id, (tick + 1) as u64);
            let d = crate::simulator::second_flow(start_ms, step_ms, session_id, (tick + 1) as u64);
            &&& tick == 0 ==> a.upload_bytes == 0 && a.download_bytes == 0 && a.packet_count == 0
            &&& tick == 0 ==> b.upload_bytes == 0 && b.download_bytes == 0 && b.packet_count == 0
            &&& c.upload_bytes - a.upload_bytes == 1_024
            &&& c.download_bytes - a.download_bytes == 8 * 1_024
            &&& c.packet_count - a.packet_count == 20
            &&& d.upload_bytes - b.upload_bytes == 512
            &&& d.download_bytes - b.download_bytes == 16 * 1_024
            &&& d.packet_count - b.packet_count == 30
        }),
{
}

/// A simulated flow has a translation whose far end is that of the flow itself, is established from
/// the beginning of the simulation until the collection, and is attributed at the collection for an
/// hour.
pub proof fn simulated_flows_are_of_their_collection(
    start_ms: i64,
    step_ms: i64,
    session_id: u64,
    tick: u64,
    i: int,
)
    requires
        0 <= i < 2,
        0 <= start_ms,
    ensures
        ({
            let flows = crate::simulator::simulated_flows(start_ms, step_ms, session_id, tick);
            let f = flows[i];
            let now = crate::simulator::simulated_time(start_ms, step_ms, tick);
            &&& flows.len() == 2
            &&& f.flow_id == "sim:v1:"@ + crate::text::decimal(session_id as nat) + seq![':'] + (
            if i == 0 {
                "client-a-https"@
            } else {
                "client-b-https"@
            })
            &&& f.first_seen == start_ms
            &&& f.last_seen == now
            &&& f.protocol == "tcp"@
            &&& f.destination_port == 443
            &&& f.nat_destination_ip == Some(f.destination_ip)
            &&& f.nat_destination_port == Some(f.destination_port)
            &&& f.nat_source_ip == Some("198.51.100.10"@)
            &&& f.nat_source_port == Some((50_001 + i) as u16)
            &&& f.client_port == 40_000 + i
            &&& f.connection_state is Established
            &&& f.direction is Bidirectional
            &&& f.domain is Some
            &&& f.domain->0.associated_at == now
            &&& now <= i64::MAX - 60 * 60 * 1_000 ==> f.domain->0.expires_at == Some(
                (now + 60 * 60 * 1_000) as i64,
            )
            &&& i == 0 ==> {
                &&& f.client_mac == "aa:bb:cc:dd:ee:01"@
                &&& f.client_ip == "192.168.1.10"@
                &&& f.destination_ip == "93.184.216.34"@
                &&& f.domain->0.domain == "example.com"@
                &&& f.domain->0.source is Dns
                &&& f.domain->0.confidence is High
            }
            &&& i == 1 ==> {
                &&& f.client_mac == "aa:bb:cc:dd:ee:02"@
                &&& f.client_ip == "192.168.1.11"@
                &&& f.destination_ip == "203.0.113.20"@
                &&& f.domain->0.domain == "video.example.net"@
                &&& f.domain->0.source is Sni
                &&& f.domain->0.confidence is Low
            }
        }),
{
}

/// The time to live that is learned is that of an address in the answer, and none of another
/// address is shorter.
pub proof fn the_shortest_time_to_live_is_learned(answers: Seq<DnsRecord>)
    ensures
        match crate::dns_proxy::shortest_ttl(answers) {
            Some(ttl) => {
                &&& exists|i: int|
                    0 <= i < answers.len() && (#[trigger] answers[i]).address is Some
                        && answers[i].ttl == ttl
                &&& forall|i: int|
                    0 <= i < answers.len() && (#[trigger] answers[i]).address is Some ==> ttl
                        <= answers[i].ttl
            },
            None => forall|i: int|
                0 <= i < answers.len() ==> (#[trigger] answers[i]).address is None,
        },
    decreases answers.len(),
{
    if answers.len() > 0 {
        let t = answers.drop_last();
        let n = answers.len() - 1;
        the_shortest_time_to_live_is_learned(t);
        let before = crate::dns_proxy::shortest_ttl(t);
        let now = crate::dns_proxy::shortest_ttl(answers);
        if now is Some {
            if answers[n].address is Some && now == Some(answers[n].ttl) {
            } else {
                let i = choose|i: int|
                    0 <= i < t.len() && (#[trigger] t[i]).address is Some && t[i].ttl
                        == before->0;
                assert(answers[i].address is Some && answers[i].ttl == now->0);
            }
        }
        assert forall|i: int| 0 <= i < answers.len() && (
        #[trigger] answers[i]).address is Some implies now is Some && now->0
            <= answers[i].ttl by {
            if i < n {
                assert(t[i] == answers[i]);
            }
        }
    }
}

/// The addresses of an answer are learned in the order in which they first come.
pub proof fn addresses_are_learned_in_order(answers: Seq<DnsRecord>, record: DnsRecord)
    ensures
        crate::dns_proxy::targets(Seq::empty()).len() == 0,
        ({
            let before = crate::dns_proxy::targets(answers);
            let after = crate::dns_proxy::targets(answers.push(record));
            let new = record.address is Some && forall|i: int|
                0 <= i < answers.len() ==> (#[trigger] answers[i]).address != record.address;
            if new {
                after == before.push(record.address->0)
            } else {
                after == before
            }
        }),
{
    assert(answers.push(record).drop_last() =~= answers);
    crate::dns_proxy::observations_hold_the_answers(answers);
    if record.address is Some {
        let a = record.address->0;
        if crate::dns_proxy::targets(answers).contains(a) {
            let i = choose|i: int|
                0 <= i < answers.len() && (#[trigger] answers[i]).address == Some(a);
            assert(answers[i].address == record.address);
        } else {
            assert forall|i: int| 0 <= i < answers.len() implies (#[trigger] answers[i]).address
                != record.address by {
                if answers[i].address == Some(a) {
                    assert(crate::dns_proxy::targets(answers).contains(a));
                }
            }
        }
    }
}

/// Something is learned from an answer exactly where an IPv4 client asked for a name and was given
/// an address to keep for a while: the client, the first name of the question, the addresses, and
/// for how long.
pub proof fn answers_are_learned_from(
    client: IpAddress,
    question: Option<MessageView>,
    answer: Option<MessageView>,
    now_ms: i64,
)
    ensures
        ({
            let o = crate::dns_proxy::learned_from(client, question, answer, now_ms);
            &&& o is Some <==> {
                &&& client is V4
                &&& question is Some && question->0.queries.len() > 0
                &&& answer is Some
                &&& exists|i: int|
                    0 <= i < answer->0.answers.len() && (
                    #[trigger] answer->0.answers[i]).address is Some
                &&& forall|i: int|
                    0 <= i < answer->0.answers.len() && (
                    #[trigger] answer->0.answers[i]).address is Some ==> answer->0.answers[i].ttl
                        > 0
            }
            &&& o is Some ==> {
                &&& client == IpAddress::V4(o->0.client_ip)
                &&& o->0.domain == question->0.queries[0]
                &&& o->0.target_ips == crate::dns_proxy::targets(answer->0.answers)
                &&& crate::dns_proxy::shortest_ttl(answer->0.answers) == Some(o->0.ttl_secs)
                &&& o->0.observed_at_ms == now_ms
            }
        }),
{
    if answer is Some {
        let answers = answer->0.answers;
        the_shortest_time_to_live_is_learned(answers);
    }
}

/// The letter, in either case.
pub open spec fn is_letter(c: char, lower: char, upper: char) -> bool {
    c == lower || c == upper
}

/// A setting is on where it is a one or the word for true, in small or capital letters.
pub proof fn settings_are_switched_on(value: Option<String>)
    ensures
        crate::config::switched_on(value) <==> value is Some && {
            let v = value->0@;
            ||| v.len() == 1 && v[0] == '1'
            ||| v.len() == 4 && is_letter(v[0], 't', 'T') && is_letter(v[1], 'r', 'R')
                && is_letter(v[2], 'u', 'U') && is_letter(v[3], 'e', 'E')
        },
{
    reveal_strlit("1");
    reveal_strlit("true");
    if value is Some {
        let v = value->0@;
        let low = crate::text::lower_spec(v);
        assert(low.len() == v.len());
        if v.len() == 1 && v[0] == '1' {
            assert(v =~= "1"@);
        }
        if v.len() == 4 && is_letter(v[0], 't', 'T') && is_letter(v[1], 'r', 'R') && is_letter(
            v[2],
            'u',
            'U',
        ) && is_letter(v[3], 'e', 'E') {
            assert(low =~= "true"@);
        }
        if low == "true"@ {
            assert(low[0] == 't' && low[1] == 'r' && low[2] == 'u' && low[3] == 'e');
        }
    }
}

/// A number is taken from a setting where it holds one above zero that is not too large; in all
/// other cases the default holds.
pub proof fn numbers_are_taken_from_settings(value: Option<String>, max: nat, default: nat)
    ensures
        ({
            let read = match value {
                Some(v) => crate::text::parse_unsigned(v@, max),
                None => None,
            };
            let n = crate::config::number_of(value, max, default);
            if read is Some && read->0 > 0 {
                n == read->0
            } else {
                n == default
            }
        }),
{
}

/// Texts and addresses of settings hold where they are given.
pub proof fn given_settings_hold(
    value: Option<String>,
    default: Seq<char>,
    address: Option<crate::addr::SocketAddress>,
    other: crate::addr::SocketAddress,
    port: u16,
)
    ensures
        value is Some ==> crate::config::text_of(value, default) == value->0@,
        value is None ==> crate::config::text_of(value, default) == default,
        address is Some ==> crate::config::address_of(address, other) == address->0,
        address is None ==> crate::config::address_of(address, other) == other,
        crate::config::local(port).loopback(),
        crate::config::local(port) is V4,
        crate::config::local(port)->V4_ip.number() == 0x7f00_0001,
        crate::config::local(port)->V4_port == port,
{
}

/// A length before a message is two bytes, the first weighing more.
pub proof fn lengths_are_two_bytes(prefix: [u8; 2])
    ensures
        0 <= crate::dns_proxy::prefix_value(prefix) <= 65_535,
        crate::dns_proxy::prefix_value(prefix) / 256 == prefix@[0],
        crate::dns_proxy::prefix_value(prefix) % 256 == prefix@[1],
{
}

/// A database is brought up to the third version, one version after the other, from the one that it
/// has.
pub proof fn databases_are_brought_up_to_date(version: i32)
    ensures
        version >= 3 ==> crate::schema::batches_from(version).len() == 0,
        version <= 0 ==> crate::schema::batches_from(version).len() == 3,
        1 <= version < 3 ==> crate::schema::batches_from(version).len() == 3 - version,
        version < 1 ==> crate::schema::batches_from(version)[0] == crate::schema::SCHEMA_V1@,
        version < 2 ==> crate::schema::batches_from(version)[crate::schema::batches_from(
            version,
        ).len() - 2] == crate::schema::SCHEMA_V2@,
        version < 3 ==> crate::schema::batches_from(version).last() == crate::schema::SCHEMA_V3@,
{
}

/// A hardware address is kept in lower case without blanks around it; a blank one is none.
pub proof fn hardware_addresses_are_normalised(value: Seq<char>)
    ensures
        ({
            let core = crate::text::trim_spec(value);
            &&& crate::dns::mac_of(value) is None <==> core.len() == 0
            &&& core.len() > 0 ==> crate::dns::mac_of(value) == Some(crate::text::lower_spec(core))
        }),
{
}

/// The parts of a name between its points.
pub open spec fn labels(name: Seq<char>) -> Seq<Seq<char>> {
    crate::text::split_spec(name, '.')
}

/// A name of a domain is kept in lower case, without blanks around it or points at its end. It has
/// at most 253 bytes, and between its points parts of one to 63 bytes each.
pub proof fn domain_names_are_normalised(value: Seq<char>)
    ensures
        ({
            let name = crate::text::lower_spec(
                crate::text::trim_end_char_spec(crate::text::trim_spec(value), '.'),
            );
            let fits = {
                &&& name.len() > 0
                &&& vstd::utf8::encode_utf8(name).len() <= 253
                &&& forall|i: int|
                    0 <= i < labels(name).len() ==> (#[trigger] labels(name)[i]).len() > 0
                        && vstd::utf8::encode_utf8(labels(name)[i]).len() <= 63
            };
            if fits {
                crate::dns::domain_of(value) == Some(name)
            } else {
                crate::dns::domain_of(value) is None
            }
        }),
{
    let name = crate::text::lower_spec(
        crate::text::trim_end_char_spec(crate::text::trim_spec(value), '.'),
    );
    if exists|i: int|
        0 <= i < crate::text::split_spec(name, '.').len() && !crate::dns::label_ok(
            #[trigger] crate::text::split_spec(name, '.')[i],
        ) {
        let i = choose|i: int|
            0 <= i < crate::text::split_spec(name, '.').len() && !crate::dns::label_ok(
                #[trigger] crate::text::split_spec(name, '.')[i],
            );
        assert(!(labels(name)[i].len() > 0 && vstd::utf8::encode_utf8(labels(name)[i]).len()
            <= 63));
    } else {
        assert forall|i: int| 0 <= i < labels(name).len() implies (
        #[trigger] labels(name)[i]).len() > 0 && vstd::utf8::encode_utf8(labels(name)[i]).len()
            <= 63 by {
            assert(crate::dns::label_ok(crate::text::split_spec(name, '.')[i]));
        }
    }
}

} // verus!
