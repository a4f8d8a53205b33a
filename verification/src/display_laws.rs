//! What pages show: every number on them is one of what was observed, summed up as the page says.
use vstd::prelude::*;

use crate::domain::{
    DeviceMinuteStat, DeviceView, DomainMinuteStat, DomainTrafficSummaryView, FlowView,
};
use crate::web::{Bucket, DeviceRow, DomainTrendWindow};

verus! {

/// The sum, or the largest number where it does not fit.
pub open spec fn is_sum(r: u64, sum: int) -> bool {
    if sum <= u64::MAX {
        r == sum
    } else {
        r == u64::MAX
    }
}

/// The minutes of the last day, in order.
pub open spec fn of_last_day(stats: Seq<DeviceMinuteStat>, now_ms: i64) -> Seq<DeviceMinuteStat> {
    stats.filter(|s: DeviceMinuteStat| now_ms - s.minute_ms <= 24 * 60 * 60 * 1_000)
}

proof fn lemma_minutes_since(stats: Seq<DeviceMinuteStat>, now_ms: i64)
    ensures
        ({
            let cutoff = crate::num::clamp_i64(now_ms - 86_400_000);
            let buckets = crate::web::minutes_since(stats, cutoff);
            let day = of_last_day(stats, now_ms);
            &&& buckets.len() == day.len()
            &&& forall|k: int|
                #![trigger buckets[k]]
                #![trigger day[k]]
                0 <= k < day.len() ==> {
                    &&& buckets[k].start_ms == day[k].minute_ms
                    &&& buckets[k].upload == day[k].upload_bytes
                    &&& buckets[k].download == day[k].download_bytes
                }
        }),
    decreases stats.len(),
{
    reveal(Seq::filter);
    if stats.len() > 0 {
        lemma_minutes_since(stats.drop_last(), now_ms);
    }
}

/// The rows of a device's page stand for the last hundred and eighty minutes of the last day in
/// which there was traffic, in order and none left out. Each shows when its minute began, what was
/// sent in it, what was received, and both together.
pub proof fn device_pages_show_the_minutes_of_the_last_day(
    stats: Seq<DeviceMinuteStat>,
    now_ms: i64,
)
    ensures
        ({
            let rows = crate::web::all_traffic_shown(crate::web::recent_minutes(stats, now_ms));
            let day = of_last_day(stats, now_ms);
            let skipped: int = if day.len() > 180 {
                day.len() - 180
            } else {
                0
            };
            &&& rows.len() == day.len() - skipped
            &&& forall|k: int|
                0 <= k < rows.len() ==> {
                    let s = day[skipped + k];
                    &&& (#[trigger] rows[k]).minute == crate::format::timestamp_text(s.minute_ms)
                    &&& rows[k].upload_bytes == crate::format::bytes_text(s.upload_bytes)
                    &&& rows[k].download_bytes == crate::format::bytes_text(s.download_bytes)
                    &&& exists|total: u64|
                        is_sum(total, s.upload_bytes + s.download_bytes) && rows[k].total_bytes
                            == #[trigger] crate::format::bytes_text(total)
                }
        }),
{
    lemma_minutes_since(stats, now_ms);
    let buckets = crate::web::recent_minutes(stats, now_ms);
    let rows = crate::web::all_traffic_shown(buckets);
    let day = of_last_day(stats, now_ms);
    let skipped: int = if day.len() > 180 {
        day.len() - 180
    } else {
        0
    };
    let all = crate::web::minutes_since(stats, crate::num::clamp_i64(now_ms - 86_400_000));
    assert forall|k: int| 0 <= k < rows.len() implies {
        let s = day[skipped + k];
        &&& (#[trigger] rows[k]).minute == crate::format::timestamp_text(s.minute_ms)
        &&& rows[k].upload_bytes == crate::format::bytes_text(s.upload_bytes)
        &&& rows[k].download_bytes == crate::format::bytes_text(s.download_bytes)
        &&& exists|total: u64|
            is_sum(total, s.upload_bytes + s.download_bytes) && rows[k].total_bytes
                == #[trigger] crate::format::bytes_text(total)
    } by {
        let s = day[skipped + k];
        assert(buckets[k] == all[skipped + k]);
        let total = crate::web::both(s.upload_bytes, s.download_bytes);
        assert(is_sum(total, s.upload_bytes + s.download_bytes));
        assert(rows[k].total_bytes == crate::format::bytes_text(total));
    }
}

/// What is sent and received in a span of time, both together.
pub open spec fn is_total_of(total: u64, b: Bucket) -> bool {
    is_sum(total, b.upload + b.download)
}

/// The bars of a list of rows are drawn against the row with the most traffic.
pub proof fn bars_are_drawn_against_the_largest(buckets: Seq<Bucket>, k: int)
    requires
        0 <= k < buckets.len(),
    ensures
        ({
            let top = crate::web::largest(buckets);
            &&& forall|i: int, t: u64|
                0 <= i < buckets.len() && #[trigger] is_total_of(t, #[trigger] buckets[i]) ==> t
                    <= top
            &&& top > 0 ==> exists|i: int|
                0 <= i < buckets.len() && is_total_of(top, #[trigger] buckets[i])
            &&& exists|t: u64|
                #[trigger] is_total_of(t, buckets[k]) && crate::web::all_traffic_shown(
                    buckets,
                )[k].bar_width == crate::format::percent(t, top) as u8
        }),
{
    lemma_largest(buckets);
    let t = crate::web::both(buckets[k].upload, buckets[k].download);
    assert(is_total_of(t, buckets[k]));
}

proof fn lemma_largest(buckets: Seq<Bucket>)
    ensures
        forall|i: int, t: u64|
            0 <= i < buckets.len() && #[trigger] is_total_of(t, #[trigger] buckets[i]) ==> t
                <= crate::web::largest(buckets),
        crate::web::largest(buckets) > 0 ==> exists|i: int|
            0 <= i < buckets.len() && is_total_of(
                crate::web::largest(buckets),
                #[trigger] buckets[i],
            ),
    decreases buckets.len(),
{
    if buckets.len() > 0 {
        let b = buckets.drop_last();
        lemma_largest(b);
        let top = crate::web::largest(buckets);
        let before = crate::web::largest(b);
        assert forall|i: int, t: u64|
            0 <= i < buckets.len() && #[trigger] is_total_of(
                t,
                #[trigger] buckets[i],
            ) implies t <= top by {
            if i < b.len() {
                assert(is_total_of(t, b[i]));
            }
        }
        if top > 0 {
            if top == before {
                let i = choose|i: int| 0 <= i < b.len() && is_total_of(before, #[trigger] b[i]);
                assert(is_total_of(top, buckets[i]));
            } else {
                assert(is_total_of(top, buckets[buckets.len() - 1]));
            }
        }
    }
}

/// The length of a trend: a day, or thirty days.
pub open spec fn length_of(window: DomainTrendWindow) -> int {
    if window is Hours24 {
        24int * 60 * 60 * 1_000
    } else {
        30int * 24 * 60 * 60 * 1_000
    }
}

/// The span that one row of a trend stands for: ten minutes of a day, or six hours of thirty days.
pub open spec fn span_of(window: DomainTrendWindow) -> int {
    if window is Hours24 {
        10int * 60 * 1_000
    } else {
        6int * 60 * 60 * 1_000
    }
}

/// The minutes of a trend that fall into the span that begins at a time.
pub open spec fn minutes_in(
    stats: Seq<DomainMinuteStat>,
    window: DomainTrendWindow,
    now_ms: i64,
    start: int,
) -> Seq<DomainMinuteStat> {
    stats.filter(
        |s: DomainMinuteStat|
            now_ms - s.minute_ms <= length_of(window) && start <= s.minute_ms < start + span_of(
                window,
            ),
    )
}

/// What was sent, or received, in minutes.
pub open spec fn sum_of(stats: Seq<DomainMinuteStat>, up: bool) -> int {
    stats.fold_left(
        0int,
        |sum: int, s: DomainMinuteStat|
            sum + if up {
                s.upload_bytes as int
            } else {
                s.download_bytes as int
            },
    )
}

proof fn lemma_span(minute: int, span: int, start: int)
    requires
        span > 0,
        start % span == 0,
    ensures
        minute - minute % span == start <==> start <= minute < start + span,
{
    if start <= minute < start + span {
        let q = start / span;
        assert(start == q * span) by (nonlinear_arith)
            requires
                q == start / span,
                start % span == 0,
                span > 0,
        ;
        vstd::arithmetic::div_mod::lemma_fundamental_div_mod_converse(
            minute,
            span,
            q,
            minute - start,
        );
    }
}

proof fn lemma_span_total(
    stats: Seq<DomainMinuteStat>,
    window: DomainTrendWindow,
    now_ms: i64,
    start: int,
    up: bool,
)
    requires
        start % span_of(window) == 0,
    ensures
        crate::web::span_total(
            stats,
            start,
            window,
            crate::num::clamp_i64(now_ms - window.length_ms()),
            up,
        ) == sum_of(minutes_in(stats, window, now_ms, start), up),
    decreases stats.len(),
{
    reveal(Seq::filter);
    let p = |s: DomainMinuteStat|
        now_ms - s.minute_ms <= length_of(window) && start <= s.minute_ms < start + span_of(window);
    let step = |sum: int, s: DomainMinuteStat|
        sum + if up {
            s.upload_bytes as int
        } else {
            s.download_bytes as int
        };
    if stats.len() > 0 {
        let t = stats.drop_last();
        let s = stats.last();
        lemma_span_total(t, window, now_ms, start, up);
        lemma_span(s.minute_ms as int, span_of(window), start);
        if p(s) {
            assert(stats.filter(p) == t.filter(p).push(s));
            assert(t.filter(p).push(s).drop_last() =~= t.filter(p));
            assert(t.filter(p).push(s).last() == s);
            assert(t.filter(p).push(s).fold_left(0int, step) == step(
                t.filter(p).fold_left(0int, step),
                s,
            ));
        }
    }
}

/// A trend has one row for each span of time in which there was traffic, in order; the row shows
/// exactly what was sent and what was received in its span, and there is no row for any other span.
pub proof fn trends_sum_up_their_spans(
    buckets: Seq<Bucket>,
    stats: Seq<DomainMinuteStat>,
    window: DomainTrendWindow,
    now_ms: i64,
)
    requires
        crate::web::spans_fit(stats, window, now_ms),
        crate::web::summed_up(
            buckets,
            stats,
            window,
            crate::num::clamp_i64(now_ms - window.length_ms()),
        ),
    ensures
        forall|i: int, j: int|
            0 <= i < j < buckets.len() ==> (#[trigger] buckets[i]).start_ms < (
            #[trigger] buckets[j]).start_ms,
        forall|k: int|
            0 <= k < buckets.len() ==> {
                let inside = minutes_in(
                    stats,
                    window,
                    now_ms,
                    (#[trigger] buckets[k]).start_ms as int,
                );
                &&& buckets[k].start_ms as int % span_of(window) == 0
                &&& inside.len() > 0
                &&& is_sum(buckets[k].upload, sum_of(inside, true))
                &&& is_sum(buckets[k].download, sum_of(inside, false))
            },
        forall|i: int|
            0 <= i < stats.len() && now_ms - (#[trigger] stats[i]).minute_ms <= length_of(window)
                ==> exists|k: int|
                0 <= k < buckets.len() && (#[trigger] buckets[k]).start_ms <= stats[i].minute_ms
                    < buckets[k].start_ms + span_of(window),
{
    let cutoff = crate::num::clamp_i64(now_ms - window.length_ms());
    let span = span_of(window);
    assert forall|k: int| 0 <= k < buckets.len() implies {
        let inside = minutes_in(stats, window, now_ms, (#[trigger] buckets[k]).start_ms as int);
        &&& buckets[k].start_ms as int % span_of(window) == 0
        &&& inside.len() > 0
        &&& is_sum(buckets[k].upload, sum_of(inside, true))
        &&& is_sum(buckets[k].download, sum_of(inside, false))
    } by {
        let start = buckets[k].start_ms as int;
        assert(crate::web::span_used(stats, start, window, cutoff));
        let i = choose|i: int|
            0 <= i < stats.len() && crate::web::in_span(#[trigger] stats[i], start, window, cutoff);
        let m = stats[i].minute_ms as int;
        assert(start % span == 0) by {
            vstd::arithmetic::div_mod::lemma_fundamental_div_mod(m, span);
            assert(start == span * (m / span));
            vstd::arithmetic::div_mod::lemma_mod_multiples_basic(m / span, span);
            assert(span * (m / span) == (m / span) * span) by (nonlinear_arith);
        }
        lemma_span(m, span, start);
        lemma_span_total(stats, window, now_ms, start, true);
        lemma_span_total(stats, window, now_ms, start, false);
        let p = |s: DomainMinuteStat|
            now_ms - s.minute_ms <= length_of(window) && start <= s.minute_ms < start + span_of(
                window,
            );
        let x = crate::ledger_laws::lemma_filter_keeps(stats, p, i);
        lemma_sum_positive(minutes_in(stats, window, now_ms, start), true);
        lemma_sum_positive(minutes_in(stats, window, now_ms, start), false);
    }
    assert forall|i: int|
        0 <= i < stats.len() && now_ms - (#[trigger] stats[i]).minute_ms <= length_of(
            window,
        ) implies exists|k: int|
        0 <= k < buckets.len() && (#[trigger] buckets[k]).start_ms <= stats[i].minute_ms
            < buckets[k].start_ms + span_of(window) by {
        let m = stats[i].minute_ms as int;
        let start = crate::web::span_start(stats[i].minute_ms, window);
        assert(crate::web::in_span(stats[i], start, window, cutoff));
        assert(crate::web::span_used(stats, start, window, cutoff));
        let k = choose|k: int| 0 <= k < buckets.len() && (#[trigger] buckets[k]).start_ms == start;
        assert(buckets[k].start_ms as int % span == 0);
        lemma_span(m, span, start);
    }
}

proof fn lemma_sum_positive(stats: Seq<DomainMinuteStat>, up: bool)
    ensures
        sum_of(stats, up) >= 0,
    decreases stats.len(),
{
    if stats.len() > 0 {
        lemma_sum_positive(stats.drop_last(), up);
    }
}

/// Trends are asked for by name; the shorter one is meant where none is named, and no other name is
/// known.
pub proof fn trends_are_asked_for_by_name(value: Option<Seq<char>>)
    ensures
        crate::web::trend_window_of(value) == Some(DomainTrendWindow::Hours24) <==> (value is None
            || value == Some("24h"@)),
        crate::web::trend_window_of(value) == Some(DomainTrendWindow::Days30) <==> value == Some(
            "30d"@,
        ),
        DomainTrendWindow::Hours24.text() == "24h"@,
        DomainTrendWindow::Days30.text() == "30d"@,
        DomainTrendWindow::Hours24.length_ms() == length_of(DomainTrendWindow::Hours24),
        DomainTrendWindow::Days30.length_ms() == length_of(DomainTrendWindow::Days30),
        DomainTrendWindow::Hours24.span_ms() == span_of(DomainTrendWindow::Hours24),
        DomainTrendWindow::Days30.span_ms() == span_of(DomainTrendWindow::Days30),
{
    reveal_strlit("24h");
    reveal_strlit("30d");
    assert("24h"@[0] != "30d"@[0]);
}

/// What was sent, or received, by flows.
pub open spec fn flow_sum(flows: Seq<FlowView>, up: bool) -> int {
    flows.fold_left(
        0int,
        |sum: int, f: FlowView|
            sum + if up {
                f.upload_bytes as int
            } else {
                f.download_bytes as int
            },
    )
}

proof fn lemma_flow_sum(flows: Seq<FlowView>, up: bool)
    ensures
        crate::web::flow_total(flows, up) == flow_sum(flows, up),
        flow_sum(flows, up) >= 0,
    decreases flows.len(),
{
    if flows.len() > 0 {
        lemma_flow_sum(flows.drop_last(), up);
    }
}

proof fn lemma_latest(flows: Seq<FlowView>)
    ensures
        match crate::web::latest(flows) {
            None => flows.len() == 0,
            Some(t) => {
                &&& forall|i: int| 0 <= i < flows.len() ==> (#[trigger] flows[i]).last_seen <= t
                &&& exists|i: int| 0 <= i < flows.len() && (#[trigger] flows[i]).last_seen == t
            },
        },
    decreases flows.len(),
{
    if flows.len() > 0 {
        let t = flows.drop_last();
        lemma_latest(t);
        let n = flows.len() - 1;
        let top = crate::web::latest(flows)->0;
        assert forall|i: int| 0 <= i < flows.len() implies (#[trigger] flows[i]).last_seen
            <= top by {
            if i < n {
                assert(t[i] == flows[i]);
            }
        }
        if top == flows[n].last_seen {
        } else {
            let i = choose|i: int| 0 <= i < t.len() && (#[trigger] t[i]).last_seen == top;
            assert(flows[i].last_seen == top);
        }
    }
}

/// A device is shown under its name, where it has one, with its address, with what its flows have
/// sent, received, and both together, with how many flows it has and when the last of them was
/// seen, and with the first of its domains.
pub proof fn devices_are_shown_with_their_traffic(
    device: DeviceView,
    flows: Seq<FlowView>,
    domains: Seq<DomainTrafficSummaryView>,
)
    ensures
        ({
            let row = crate::web::device_shown(device, flows, domains);
            &&& row.mac_address == device.mac_address
            &&& row.raw_name == match device.display_name {
                Some(name) => name,
                None => Seq::empty(),
            }
            &&& row.raw_name.len() > 0 ==> row.display_name == row.raw_name
            &&& row.raw_name.len() == 0 ==> row.display_name == "未命名设备"@
            &&& row.current_ip == match device.current_ip {
                Some(ip) => ip,
                None => "未知"@,
            }
            &&& is_sum(row.upload_total, flow_sum(flows, true))
            &&& is_sum(row.download_total, flow_sum(flows, false))
            &&& row.upload_bytes == crate::format::bytes_text(row.upload_total)
            &&& row.download_bytes == crate::format::bytes_text(row.download_total)
            &&& exists|total: u64|
                is_sum(total, row.upload_total + row.download_total) && row.total_bytes
                    == #[trigger] crate::format::bytes_text(total)
            &&& flows.len() <= usize::MAX ==> row.flow_count == flows.len()
            &&& flows.len() > 0 ==> exists|i: int|
                0 <= i < flows.len() && row.last_seen == crate::format::timestamp_text(
                    (#[trigger] flows[i]).last_seen,
                ) && forall|j: int|
                    0 <= j < flows.len() ==> (#[trigger] flows[j]).last_seen <= flows[i].last_seen
            &&& flows.len() == 0 ==> row.last_seen == "暂无"@
            &&& domains.len() > 0 ==> row.top_domain == domains[0].domain && row.top_domain_meta
                == domains[0].source.text() + " / "@ + domains[0].confidence.text()
            &&& domains.len() == 0 ==> row.top_domain == "未知"@ && row.top_domain_meta
                == "unknown / unknown"@
        }),
{
    lemma_flow_sum(flows, true);
    lemma_flow_sum(flows, false);
    lemma_latest(flows);
    reveal_strlit("");
    let row = crate::web::device_shown(device, flows, domains);
    if device.display_name is None {
        assert(row.raw_name =~= Seq::empty());
    }
    let total = crate::web::both(row.upload_total, row.download_total);
    assert(is_sum(total, row.upload_total + row.download_total));
    assert(row.total_bytes == crate::format::bytes_text(total));
}

/// The totals of devices grow with each device by what it has sent and received, and by its flows.
pub proof fn totals_grow_with_each_device(rows: Seq<DeviceRow>, row: DeviceRow)
    ensures
        crate::web::device_total(Seq::empty(), true) == 0,
        crate::web::device_total(Seq::empty(), false) == 0,
        crate::web::flow_count(Seq::empty()) == 0,
        crate::web::device_total(rows.push(row), true) - crate::web::device_total(rows, true)
            == row.upload_total,
        crate::web::device_total(rows.push(row), false) - crate::web::device_total(rows, false)
            == row.download_total,
        crate::web::flow_count(rows.push(row)) - crate::web::flow_count(rows) == row.flow_count,
{
    assert(rows.push(row).drop_last() =~= rows);
}

/// A domain is shown with its own traffic, source and confidence, and is marked where it is the one
/// that was picked.
pub proof fn domains_are_shown_with_their_traffic(
    mac: Seq<char>,
    selected: Option<Seq<char>>,
    d: DomainTrafficSummaryView,
)
    ensures
        ({
            let row = crate::web::domain_shown(mac, selected, d);
            &&& row.domain == d.domain
            &&& row.selected <==> selected == Some(d.domain)
            &&& row.upload_bytes == crate::format::bytes_text(d.upload_bytes)
            &&& row.download_bytes == crate::format::bytes_text(d.download_bytes)
            &&& row.total_bytes == crate::format::bytes_text(d.total_bytes)
            &&& row.source == d.source.text()
            &&& row.confidence == d.confidence.text()
            &&& row.trend_href == "/devices/"@ + mac + "?domain="@ + crate::format::encoded(
                vstd::utf8::encode_utf8(d.domain),
            ) + "&domain_window="@ + "24h"@
        }),
{
}

/// The text is an address and a port.
pub open spec fn is_endpoint(text: Seq<char>, ip: Seq<char>, port: u16) -> bool {
    text == ip + seq![':'] + crate::text::decimal(port as nat)
}

/// A flow is shown with its own endpoints, counters, times, attribution and state. Its translation
/// is shown where it is complete.
pub proof fn flows_are_shown_as_they_are(f: FlowView)
    ensures
        ({
            let row = crate::web::flow_shown(f);
            &&& row.last_seen == crate::format::timestamp_text(f.last_seen)
            &&& row.protocol == f.protocol
            &&& is_endpoint(row.client_endpoint, f.client_ip, f.client_port)
            &&& is_endpoint(row.destination_endpoint, f.destination_ip, f.destination_port)
            &&& row.upload_bytes == crate::format::bytes_text(f.upload_bytes)
            &&& row.download_bytes == crate::format::bytes_text(f.download_bytes)
            &&& row.packet_count == crate::text::decimal(f.packet_count as nat)
            &&& f.domain matches Some(a) ==> row.domain == a.domain && row.source
                == a.source.text() && row.confidence == a.confidence.text()
            &&& f.domain is None ==> row.source == "unknown"@ && row.confidence == "unknown"@
            &&& row.connection_state == f.connection_state.text()
            &&& f.nat_source_ip is Some && f.nat_source_port is Some && f.nat_destination_ip is Some
                && f.nat_destination_port is Some ==> exists|a: Seq<char>, b: Seq<char>|
                is_endpoint(a, f.nat_source_ip->0, f.nat_source_port->0) && is_endpoint(
                    b,
                    f.nat_destination_ip->0,
                    f.nat_destination_port->0,
                ) && row.nat_mapping == #[trigger] (a + " → "@ + b)
        }),
{
    reveal_strlit(":");
    let row = crate::web::flow_shown(f);
    assert(":"@ =~= seq![':']);
    if f.nat_source_ip is Some && f.nat_source_port is Some && f.nat_destination_ip is Some
        && f.nat_destination_port is Some {
        let a = crate::web::endpoint_text(f.nat_source_ip->0, f.nat_source_port->0);
        let b = crate::web::endpoint_text(f.nat_destination_ip->0, f.nat_destination_port->0);
        assert(row.nat_mapping == a + " → "@ + b);
    }
}

} // verus!
