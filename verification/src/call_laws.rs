//! What callers get from the functions of the library, told by what they hand in.
use vstd::prelude::*;

use crate::addr::{Ipv4Address, SocketAddress};
use crate::config::{Config, Settings};
use crate::conntrack::NetworkTuple;
use crate::dns::{DnsObservation, PendingDnsObservation};
use crate::domain::{DeviceMinuteStat, DomainAttribution, Flow, FlowCounters};
use crate::paging::FlowQueryError;
use crate::state::CollectorHealthSnapshot;
use crate::tc_ebpf::{EbpfFlowKey, EbpfFlowValue, TcEbpfCollector};
use crate::web::{DeviceMeters, DeviceRow, DeviceTotals, TrafficRow};

verus! {

/// Of two attributions with the same confidence and source the later one is returned, and of two at
/// the same time the one that comes in.
pub proof fn the_later_of_level_attributions_is_returned(
    stored: DomainAttribution,
    incoming: DomainAttribution,
    r: Option<DomainAttribution>,
)
    requires
        call_ensures(
            crate::storage::effective_attribution,
            (&Some(stored), &Some(incoming)),
            r,
        ),
        stored.confidence == incoming.confidence,
        stored.source == incoming.source,
    ensures
        r is Some,
        incoming.associated_at >= stored.associated_at ==> r->0@ == incoming@,
        incoming.associated_at < stored.associated_at ==> r->0@ == stored@,
{
    crate::attribution_laws::level_attributions_go_by_time(stored@, incoming@);
}

/// An answer that is taken in binds until its time to live is over, however long it may wait for
/// its client.
pub proof fn answers_that_are_taken_in_bind_until_they_are_over(
    o: DnsObservation,
    r: Option<PendingDnsObservation>,
)
    requires
        call_ensures(crate::dns::prepare_observation, (o,), r),
    ensures
        r is Some <==> crate::naming_laws::is_usable(o@) && o.observed_at_ms < i64::MAX,
        r matches Some(p) ==> {
            let end = o.observed_at_ms + 1_000 * o.ttl_secs;
            &&& p.binding_expires_at == if end > i64::MAX {
                i64::MAX as int
            } else {
                end
            }
            &&& p.client_ip == o.client_ip
            &&& p.observed_at_ms == o.observed_at_ms
            &&& forall|ip: Ipv4Address| #[trigger]
                p.target_ips@.contains(ip) <==> o.target_ips@.contains(ip)
        },
{
    crate::naming_laws::answers_hold_for_their_time_to_live(o@);
    if r is Some {
        let p = r->0;
        assert forall|ip: Ipv4Address| #[trigger]
            p.target_ips@.contains(ip) <==> o.target_ips@.contains(ip) by {
            assert(p@.target_ips.contains(ip) == p.target_ips@.contains(ip));
            assert(p@.target_ips.contains(ip) == o@.target_ips.contains(ip));
        }
    }
}

/// A flow over TCP or UDP between two IPv4 addresses has a tuple: its protocol by number, and its
/// two ends. No other flow has one.
pub proof fn flows_over_tcp_and_udp_get_their_tuple(flow: Flow, r: Option<NetworkTuple>)
    requires
        call_ensures(NetworkTuple::from_flow, (&flow,), r),
    ensures
        r is Some <==> (flow.protocol@ == "tcp"@ || flow.protocol@ == "udp"@)
            && crate::addr::ipv4_of(flow.client_ip@) is Some && crate::addr::ipv4_of(
            flow.destination_ip@,
        ) is Some,
        r matches Some(t) ==> {
            &&& flow.protocol@ == "tcp"@ ==> t.protocol == 6
            &&& flow.protocol@ == "udp"@ ==> t.protocol == 17
            &&& t.source_ip.text() == flow.client_ip@
            &&& t.source_port == flow.client_port
            &&& t.destination_ip.text() == flow.destination_ip@
            &&& t.destination_port == flow.destination_port
        },
{
    reveal_strlit("tcp");
    reveal_strlit("udp");
    assert("tcp"@[0] != "udp"@[0]);
    crate::conntrack_laws::tcp_and_udp_flows_have_a_tuple(flow@);
    if r is Some {
        crate::text_laws::addresses_are_read_from_four_bytes(flow.client_ip@, r->0.source_ip);
        crate::text_laws::addresses_are_read_from_four_bytes(
            flow.destination_ip@,
            r->0.destination_ip,
        );
    }
}

/// A flow that the kernel counted is reported with the bytes that its client sent as its upload,
/// the bytes that its client was sent as its download, and its packets.
pub proof fn kernel_counts_are_reported(
    collector: TcEbpfCollector,
    key: EbpfFlowKey,
    value: EbpfFlowValue,
    now_ns: u64,
    observed_at_ms: i64,
    r: Flow,
)
    requires
        call_ensures(
            TcEbpfCollector::flow_from_entry,
            (&collector, key, value, now_ns, observed_at_ms),
            r,
        ),
    ensures
        r.upload_bytes == value.upload_bytes,
        r.download_bytes == value.download_bytes,
        r.packet_count == value.packet_count,
        r.client_port == key.client_port,
        r.destination_port == key.destination_port,
        r.lan_interface@ == collector.lan_interface@,
        r.wan_interface@ == collector.wan_interface@,
{
    assert(r@.upload_bytes == r.upload_bytes);
}

/// The rows of a device's page stand for the last hundred and eighty of the minutes that lie in the
/// last day, in order. Each shows what was sent in its minute, what was received, and both
/// together.
pub proof fn rows_stand_for_the_minutes_of_the_last_day(
    stats: Vec<DeviceMinuteStat>,
    now_ms: i64,
    r: Vec<TrafficRow>,
)
    requires
        call_ensures(crate::web::build_traffic_rows, (&stats, now_ms), r),
    ensures
        ({
            let day = stats@.filter(
                |s: DeviceMinuteStat| now_ms - s.minute_ms <= 24 * 60 * 60 * 1_000,
            );
            &&& r@.len() == if day.len() > 180 {
                180
            } else {
                day.len() as int
            }
            &&& forall|k: int|
                0 <= k < r@.len() ==> {
                    let s = day[day.len() - r@.len() + k];
                    &&& (#[trigger] r@[k]).minute@ == crate::format::timestamp_text(s.minute_ms)
                    &&& r@[k].upload_bytes@ == crate::format::bytes_text(s.upload_bytes)
                    &&& r@[k].download_bytes@ == crate::format::bytes_text(s.download_bytes)
                    &&& exists|total: u64|
                        crate::display_laws::is_sum(total, s.upload_bytes + s.download_bytes)
                            && r@[k].total_bytes@ == #[trigger] crate::format::bytes_text(total)
                }
        }),
{
    crate::display_laws::device_pages_show_the_minutes_of_the_last_day(stats@, now_ms);
    let day = stats@.filter(|s: DeviceMinuteStat| now_ms - s.minute_ms <= 24 * 60 * 60 * 1_000);
    assert(day == crate::display_laws::of_last_day(stats@, now_ms));
    let rows = crate::web::traffic_views(r@);
    assert(rows == crate::web::all_traffic_shown(crate::web::recent_minutes(stats@, now_ms)));
    assert forall|k: int| 0 <= k < r@.len() implies {
        let s = day[day.len() - r@.len() + k];
        &&& (#[trigger] r@[k]).minute@ == crate::format::timestamp_text(s.minute_ms)
        &&& r@[k].upload_bytes@ == crate::format::bytes_text(s.upload_bytes)
        &&& r@[k].download_bytes@ == crate::format::bytes_text(s.download_bytes)
        &&& exists|total: u64|
            crate::display_laws::is_sum(total, s.upload_bytes + s.download_bytes)
                && r@[k].total_bytes@ == #[trigger] crate::format::bytes_text(total)
    } by {
        assert(rows[k] == r@[k]@);
    }
}

/// The number in a setting, where it holds one above zero.
pub open spec fn number_in(value: Option<String>, max: nat) -> Option<nat> {
    match value {
        Some(v) => match crate::text::parse_unsigned(v@, max) {
            Some(n) => if n == 0 {
                None
            } else {
                Some(n)
            },
            None => None,
        },
        None => None,
    }
}

/// The number is the one in the setting or, without one, the default.
pub open spec fn is_number_or(n: int, value: Option<String>, max: nat, default: int) -> bool {
    match number_in(value, max) {
        Some(given) => n == given,
        None => n == default,
    }
}

/// Numbers that are not set have these defaults.
pub proof fn numbers_have_their_defaults(settings: Settings, r: Config)
    requires
        call_ensures(Config::from_env, (settings,), r),
    ensures
        is_number_or(
            r.flow_retention_hours as int,
            settings.flow_retention_hours,
            0xffff_ffff,
            24,
        ),
        is_number_or(
            r.aggregate_retention_days as int,
            settings.aggregate_retention_days,
            0xffff_ffff,
            30,
        ),
        is_number_or(
            r.shutdown_timeout_secs as int,
            settings.shutdown_timeout_secs,
            0xffff_ffff_ffff_ffff,
            10,
        ),
        is_number_or(
            r.simulator_interval_secs as int,
            settings.simulator_interval_secs,
            0xffff_ffff_ffff_ffff,
            5,
        ),
        is_number_or(
            r.collector_interval_secs as int,
            settings.collector_interval_secs,
            0xffff_ffff_ffff_ffff,
            5,
        ),
        is_number_or(
            r.conntrack_refresh_interval_secs as int,
            settings.conntrack_refresh_interval_secs,
            0xffff_ffff_ffff_ffff,
            5,
        ),
        is_number_or(
            r.dns_query_timeout_ms as int,
            settings.dns_query_timeout_ms,
            0xffff_ffff_ffff_ffff,
            2_000,
        ),
{
}

/// Nothing is switched on that was not asked for, and the login is only skipped where it was asked
/// for and the program listens for this machine alone.
pub proof fn switches_are_off_unless_set(settings: Settings, r: Config)
    requires
        call_ensures(Config::from_env, (settings,), r),
    ensures
        r.dev_bypass_auth <==> crate::config::switched_on(settings.dev_bypass_auth)
            && r.listen_addr.loopback(),
        r.secure_cookies <==> crate::config::switched_on(settings.secure_cookies),
        r.simulator_enabled <==> crate::config::switched_on(settings.simulator_enabled),
        r.tc_ebpf_enabled <==> crate::config::switched_on(settings.tc_ebpf_enabled),
        r.conntrack_enabled <==> crate::config::switched_on(settings.conntrack_enabled),
        r.dns_proxy_enabled <==> crate::config::switched_on(settings.dns_proxy_enabled),
        settings.dev_bypass_auth is None ==> !r.dev_bypass_auth,
        settings.secure_cookies is None ==> !r.secure_cookies,
        settings.simulator_enabled is None ==> !r.simulator_enabled,
        settings.tc_ebpf_enabled is None ==> !r.tc_ebpf_enabled,
        settings.conntrack_enabled is None ==> !r.conntrack_enabled,
        settings.dns_proxy_enabled is None ==> !r.dns_proxy_enabled,
{
}

/// Texts and addresses that are not set have these defaults. A hash of nothing but blanks is none.
pub proof fn texts_and_addresses_have_their_defaults(settings: Settings, r: Config)
    requires
        call_ensures(Config::from_env, (settings,), r),
    ensures
        r.database_path@ == match settings.database_path {
            Some(v) => v@,
            None => "data/routescope.db"@,
        },
        r.admin_username@ == match settings.admin_username {
            Some(v) => v@,
            None => "admin"@,
        },
        r.lan_interface@ == match settings.lan_interface {
            Some(v) => v@,
            None => "br-lan"@,
        },
        r.wan_interface@ == match settings.wan_interface {
            Some(v) => v@,
            None => "eth0"@,
        },
        r.admin_password_hash is Some <==> settings.admin_password_hash is Some
            && crate::text::trim_spec(settings.admin_password_hash->0@).len() > 0,
        r.admin_password_hash is Some ==> r.admin_password_hash->0@
            == settings.admin_password_hash->0@,
        settings.listen_addr matches Some(a) ==> r.listen_addr == a,
        settings.listen_addr is None ==> (r.listen_addr matches SocketAddress::V4 { ip, port }
            && ip.number() == 0x7f00_0001 && port == 8080),
        settings.dns_listen_addr matches Some(a) ==> r.dns_listen_addr == a,
        settings.dns_listen_addr is None ==> (r.dns_listen_addr matches SocketAddress::V4 {
            ip,
            port,
        } && ip.number() == 0x7f00_0001 && port == 5353),
        settings.dns_upstream_addr matches Some(a) ==> r.dns_upstream_addr == a,
        settings.dns_upstream_addr is None ==> (r.dns_upstream_addr matches SocketAddress::V4 {
            ip,
            port,
        } && ip.number() == 0x0101_0101 && port == 53),
{
}

/// At most one of the two sources of flows may be switched on.
pub proof fn one_source_of_flows_is_enough(config: Config, r: Result<(), &'static str>)
    requires
        call_ensures(Config::check_sources, (&config,), r),
    ensures
        r is Err <==> config.simulator_enabled && config.tc_ebpf_enabled,
{
}

/// What is sent and received by all devices is summed up, and its bars are drawn against the larger
/// of both.
pub proof fn devices_are_summed_up(devices: Vec<DeviceRow>, r: DeviceTotals)
    requires
        call_ensures(crate::web::summarize_device_rows, (&devices,), r),
    ensures
        ({
            let up = devices@.fold_left(0int, |n: int, d: DeviceRow| n + d.upload_total);
            let down = devices@.fold_left(0int, |n: int, d: DeviceRow| n + d.download_total);
            let flows = devices@.fold_left(0int, |n: int, d: DeviceRow| n + d.flow_count);
            &&& crate::display_laws::is_sum(r.upload, up)
            &&& crate::display_laws::is_sum(r.download, down)
            &&& flows <= usize::MAX ==> r.flow_count == flows
            &&& flows > usize::MAX ==> r.flow_count == usize::MAX
            &&& r.upload_bytes@ == crate::format::bytes_text(r.upload)
            &&& r.download_bytes@ == crate::format::bytes_text(r.download)
            &&& r.upload >= r.download ==> r.upload_meter == crate::format::percent(
                r.upload,
                r.upload,
            ) && r.download_meter == crate::format::percent(r.download, r.upload)
            &&& r.upload <= r.download ==> r.upload_meter == crate::format::percent(
                r.upload,
                r.download,
            ) && r.download_meter == crate::format::percent(r.download, r.download)
        }),
{
    lemma_device_sums(devices@);
}

proof fn lemma_device_sums(rows: Seq<DeviceRow>)
    ensures
        crate::web::device_total(rows, true) == rows.fold_left(
            0int,
            |n: int, d: DeviceRow| n + d.upload_total,
        ),
        crate::web::device_total(rows, false) == rows.fold_left(
            0int,
            |n: int, d: DeviceRow| n + d.download_total,
        ),
        crate::web::flow_count(rows) == rows.fold_left(
            0int,
            |n: int, d: DeviceRow| n + d.flow_count,
        ),
        crate::web::device_total(rows, true) >= 0,
        crate::web::device_total(rows, false) >= 0,
    decreases rows.len(),
{
    if rows.len() > 0 {
        lemma_device_sums(rows.drop_last());
    }
}

/// The bars of a device are drawn against all its traffic.
pub proof fn device_bars_are_drawn_against_all_traffic(row: DeviceRow, r: DeviceMeters)
    requires
        call_ensures(crate::web::device_meters, (&row,), r),
        row.upload_total + row.download_total <= u64::MAX,
    ensures
        ({
            let total = (row.upload_total + row.download_total) as u64;
            &&& total > 0 ==> r.total == 100
            &&& total == 0 ==> r.total == 0
            &&& r.upload == crate::format::percent(row.upload_total, total)
            &&& r.download == crate::format::percent(row.download_total, total)
        }),
{
}

/// The program says that it is ready exactly where it is, and that its collector does not do well
/// where the collector says so.
pub proof fn health_is_told(
    collector: CollectorHealthSnapshot,
    ready: (u16, &'static str),
    health: &'static str,
)
    requires
        call_ensures(crate::api::readiness_check, (&collector,), ready),
        call_ensures(crate::api::health_check, (&collector,), health),
    ensures
        collector.ready ==> ready.0 == 200 && ready.1@ == "ready"@,
        !collector.ready ==> ready.0 == 503 && ready.1@ == "starting"@,
        collector.state@ == "unhealthy"@ || collector.state@ == "degraded"@ ==> health@
            == "degraded"@,
        collector.state@ != "unhealthy"@ && collector.state@ != "degraded"@ ==> health@ == "ok"@,
{
}

/// A request that is at fault is a bad one; a database that is at fault is an error of the server.
pub proof fn query_errors_have_their_status(e: FlowQueryError, r: u16)
    requires
        call_ensures(crate::api::flow_query_error, (&e,), r),
    ensures
        e is Database ==> r == 500,
        !(e is Database) ==> r == 400,
{
}

/// The increase of counters is what must be added to the earlier ones to get the later ones, where
/// none of them went back.
pub proof fn counters_grow_by_their_increase(
    now: FlowCounters,
    before: FlowCounters,
    r: Result<FlowCounters, crate::domain::CounterReset>,
)
    requires
        call_ensures(FlowCounters::delta_from, (now, before), r),
    ensures
        r is Ok <==> before.upload_bytes <= now.upload_bytes && before.download_bytes
            <= now.download_bytes && before.packet_count <= now.packet_count,
        r matches Ok(d) ==> {
            &&& d.upload_bytes == now.upload_bytes - before.upload_bytes
            &&& d.download_bytes == now.download_bytes - before.download_bytes
            &&& d.packet_count == now.packet_count - before.packet_count
        },
        r matches Err(e) ==> e.previous == before && e.current == now,
{
}

/// A stretch of time has a beginning and a later end.
pub proof fn stretches_of_time_begin_before_they_end(
    from_ms: Option<i64>,
    to_ms: Option<i64>,
    r: Result<crate::domain::DataTimeRange, &'static str>,
)
    requires
        call_ensures(crate::domain::DataTimeRange::new, (from_ms, to_ms), r),
    ensures
        r is Ok <==> from_ms is Some && to_ms is Some && from_ms->0 < to_ms->0,
        r matches Ok(range) ==> range.from_ms == from_ms->0 && range.to_ms == to_ms->0,
{
}

/// The kernel's clock is read in nanoseconds, where it can be.
pub proof fn the_clock_is_read_in_nanoseconds(
    seconds: i64,
    nanoseconds: i64,
    r: Result<u64, &'static str>,
)
    requires
        call_ensures(crate::tc_ebpf::monotonic_ns, (seconds, nanoseconds), r),
    ensures
        r matches Ok(ns) ==> ns == seconds * 1_000_000_000 + nanoseconds && seconds >= 0
            && nanoseconds >= 0,
        r is Err ==> seconds < 0 || nanoseconds < 0 || seconds * 1_000_000_000 + nanoseconds
            > 0xffff_ffff_ffff_ffff,
{
}

/// A message on a stream has its length before it, in two bytes; an empty or overlong one has none.
pub proof fn streamed_messages_have_their_length(
    length: usize,
    query: Result<[u8; 2], &'static str>,
    answer: Result<[u8; 2], &'static str>,
)
    requires
        call_ensures(crate::dns_proxy::query_prefix, (length,), query),
        call_ensures(crate::dns_proxy::answer_prefix, (length,), answer),
    ensures
        query is Ok <==> length <= 65_535,
        answer is Ok <==> length <= 65_535,
        query matches Ok(p) ==> p@[0] == length / 256 && p@[1] == length % 256,
        answer matches Ok(p) ==> p@[0] == length / 256 && p@[1] == length % 256,
{
    if query is Ok {
        crate::observing_laws::lengths_are_two_bytes(query->Ok_0);
    }
    if answer is Ok {
        crate::observing_laws::lengths_are_two_bytes(answer->Ok_0);
    }
}

/// What stands for a flow in contracts is the flow, part by part.
pub proof fn flows_stand_for_themselves(f: Flow)
    ensures
        f@.flow_id == f.flow_id@,
        f@.first_seen == f.first_seen,
        f@.last_seen == f.last_seen,
        f@.protocol == f.protocol@,
        f@.direction == f.direction,
        f@.lan_interface == f.lan_interface@,
        f@.wan_interface == f.wan_interface@,
        f@.client_mac == f.client_mac@,
        f@.client_ip == f.client_ip@,
        f@.client_port == f.client_port,
        f@.destination_ip == f.destination_ip@,
        f@.destination_port == f.destination_port,
        f@.nat_source_port == f.nat_source_port,
        f@.nat_destination_port == f.nat_destination_port,
        f.nat_source_ip is Some <==> f@.nat_source_ip is Some,
        f.nat_source_ip is Some ==> f@.nat_source_ip->0 == f.nat_source_ip->0@,
        f.nat_destination_ip is Some <==> f@.nat_destination_ip is Some,
        f.nat_destination_ip is Some ==> f@.nat_destination_ip->0 == f.nat_destination_ip->0@,
        f@.upload_bytes == f.upload_bytes,
        f@.download_bytes == f.download_bytes,
        f@.packet_count == f.packet_count,
        f@.connection_state == f.connection_state,
        f.domain is Some <==> f@.domain is Some,
        f.domain is Some ==> {
            &&& f@.domain->0.domain == f.domain->0.domain@
            &&& f@.domain->0.source == f.domain->0.source
            &&& f@.domain->0.confidence == f.domain->0.confidence
            &&& f@.domain->0.associated_at == f.domain->0.associated_at
            &&& f@.domain->0.expires_at == f.domain->0.expires_at
        },
{
}

/// What stands for traffic in contracts is the traffic, part by part.
pub proof fn traffic_stands_for_itself(
    d: DeviceMinuteStat,
    m: crate::domain::DomainMinuteStat,
    t: crate::domain::DomainTrafficSummary,
    row: TrafficRow,
)
    ensures
        d@.mac_address == d.mac_address@,
        d@.minute_ms == d.minute_ms,
        d@.upload_bytes == d.upload_bytes,
        d@.download_bytes == d.download_bytes,
        m@.mac_address == m.mac_address@,
        m@.domain == m.domain@,
        m@.minute_ms == m.minute_ms,
        m@.upload_bytes == m.upload_bytes,
        m@.download_bytes == m.download_bytes,
        m@.source == m.source,
        m@.confidence == m.confidence,
        t@.domain == t.domain@,
        t@.upload_bytes == t.upload_bytes,
        t@.download_bytes == t.download_bytes,
        t@.total_bytes == t.total_bytes,
        t@.source == t.source,
        t@.confidence == t.confidence,
        row@.minute == row.minute@,
        row@.upload_bytes == row.upload_bytes@,
        row@.download_bytes == row.download_bytes@,
        row@.total_bytes == row.total_bytes@,
        row@.bar_width == row.bar_width,
{
}

} // verus!
