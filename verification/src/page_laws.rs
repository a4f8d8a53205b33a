//! The page of a device, from what was read for it to what stands on it; and one round of
//! collecting, from what was observed to what is kept.
use vstd::prelude::*;

use crate::dns::{CacheView, DnsObservation};
use crate::domain::{Device, DomainTrafficSummary, Flow, FlowPageDirection, FlowView};
use crate::pages::{DevicePage, DeviceReadings};
use crate::service::ObservationService;
use crate::sql::StorageError;
use crate::storage::RouteScopeRepository;
use crate::web::{DeviceRow, DeviceRowView, DomainTrendWindow};

verus! {

/// A domain is picked by its name; an empty name picks none.
pub proof fn domains_are_picked_by_name(domain: Option<Seq<char>>)
    ensures
        domain is Some && domain->0.len() > 0 ==> crate::pages::picked(domain) == domain,
        domain is None || domain->0.len() == 0 ==> crate::pages::picked(domain) is None,
{
}

/// The page shows a row for each minute of the last day that was read, up to the last hundred and
/// eighty of them: what was sent in that minute, what was received, and both together.
pub proof fn pages_show_the_minutes_that_were_read(
    page: DevicePage,
    mac: Seq<char>,
    selected: Option<Seq<char>>,
    window: DomainTrendWindow,
    row: DeviceRowView,
    readings: DeviceReadings,
    now_ms: i64,
    k: int,
)
    requires
        crate::pages::page_shows(page, mac, selected, window, row, readings, now_ms),
        0 <= k < page.traffic@.len(),
    ensures
        ({
            let day = crate::display_laws::of_last_day(readings.traffic@, now_ms);
            let shown = page.traffic@[k]@;
            let s = day[day.len() - page.traffic@.len() + k];
            &&& page.traffic@.len() == if day.len() > 180 {
                180
            } else {
                day.len() as int
            }
            &&& shown.minute == crate::format::timestamp_text(s.minute_ms)
            &&& shown.upload_bytes == crate::format::bytes_text(s.upload_bytes)
            &&& shown.download_bytes == crate::format::bytes_text(s.download_bytes)
            &&& exists|total: u64|
                crate::display_laws::is_sum(total, s.upload_bytes + s.download_bytes)
                    && shown.total_bytes == #[trigger] crate::format::bytes_text(total)
        }),
{
    crate::display_laws::device_pages_show_the_minutes_of_the_last_day(readings.traffic@, now_ms);
    let rows = crate::web::traffic_views(page.traffic@);
    assert(rows[k] == page.traffic@[k]@);
}

/// The page shows a row for each domain and each flow that was read, in order.
pub proof fn pages_show_the_domains_and_flows_that_were_read(
    page: DevicePage,
    mac: Seq<char>,
    selected: Option<Seq<char>>,
    window: DomainTrendWindow,
    row: DeviceRowView,
    readings: DeviceReadings,
    now_ms: i64,
    k: int,
)
    requires
        crate::pages::page_shows(page, mac, selected, window, row, readings, now_ms),
    ensures
        page.device@ == row,
        page.domains@.len() == readings.domains@.len(),
        page.flows@.len() == readings.flows@.len(),
        0 <= k < page.domains@.len() ==> {
            &&& page.domains@[k]@.domain == readings.domains@[k]@.domain
            &&& page.domains@[k]@.selected <==> selected == Some(readings.domains@[k]@.domain)
            &&& page.domains@[k]@.upload_bytes == crate::format::bytes_text(
                readings.domains@[k]@.upload_bytes,
            )
            &&& page.domains@[k]@.download_bytes == crate::format::bytes_text(
                readings.domains@[k]@.download_bytes,
            )
        },
        0 <= k < page.flows@.len() ==> {
            &&& page.flows@[k]@.upload_bytes == crate::format::bytes_text(
                readings.flows@[k]@.upload_bytes,
            )
            &&& page.flows@[k]@.download_bytes == crate::format::bytes_text(
                readings.flows@[k]@.download_bytes,
            )
            &&& page.flows@[k]@.last_seen == crate::format::timestamp_text(
                readings.flows@[k]@.last_seen,
            )
        },
{
    if 0 <= k < page.domains@.len() {
        assert(page.domains@[k]@ == crate::web::domain_shown(
            mac,
            selected,
            readings.domains@[k]@,
        ));
    }
    if 0 <= k < page.flows@.len() {
        assert(page.flows@[k]@ == crate::web::flow_shown(readings.flows@[k]@));
    }
}

/// The page shows the trend of the domain that was picked, and leads to both of its windows.
pub proof fn pages_show_the_trend_of_the_picked_domain(
    page: DevicePage,
    mac: Seq<char>,
    selected: Option<Seq<char>>,
    window: DomainTrendWindow,
    row: DeviceRowView,
    readings: DeviceReadings,
    now_ms: i64,
)
    requires
        crate::pages::page_shows(page, mac, selected, window, row, readings, now_ms),
    ensures
        page.show_domain_trend <==> selected is Some,
        selected is Some ==> page.selected_domain@ == selected->0,
        selected is None ==> page.selected_domain@.len() == 0,
        page.domain_24h_active <==> window is Hours24,
        page.domain_30d_active <==> window is Days30,
        window is Hours24 ==> page.domain_window_label@ == "24 小时 / 10 分钟桶"@,
        window is Days30 ==> page.domain_window_label@ == "30 天 / 6 小时桶"@,
        selected is None ==> page.domain_24h_href@.len() == 0 && page.domain_30d_href@.len() == 0,
        selected is Some ==> page.domain_24h_href@ == "/devices/"@ + mac + "?domain="@
            + crate::format::encoded(vstd::utf8::encode_utf8(selected->0)) + "&domain_window="@
            + "24h"@,
        selected is Some ==> page.domain_30d_href@ == "/devices/"@ + mac + "?domain="@
            + crate::format::encoded(vstd::utf8::encode_utf8(selected->0)) + "&domain_window="@
            + "30d"@,
        exists|buckets: Seq<crate::web::Bucket>|
            crate::web::summed_up(
                buckets,
                readings.domain_traffic@,
                window,
                crate::num::clamp_i64(now_ms - crate::display_laws::length_of(window)),
            ) && crate::web::traffic_views(page.domain_traffic@)
                == #[trigger] crate::web::all_traffic_shown(buckets),
{
    reveal_strlit("");
}

/// The bars of a device show which part of its traffic was sent and which received.
pub proof fn pages_show_the_parts_of_the_traffic(
    page: DevicePage,
    mac: Seq<char>,
    selected: Option<Seq<char>>,
    window: DomainTrendWindow,
    row: DeviceRowView,
    readings: DeviceReadings,
    now_ms: i64,
)
    requires
        crate::pages::page_shows(page, mac, selected, window, row, readings, now_ms),
        row.upload_total + row.download_total < 0x20_0000_0000_0000,
    ensures
        ({
            let total = row.upload_total + row.download_total;
            let up = page.device_upload_meter * total - 100 * row.upload_total;
            let down = page.device_download_meter * total - 100 * row.download_total;
            &&& page.device_total_meter == if total > 0 {
                100
            } else {
                0int
            }
            &&& -1_001 * total <= 2_000 * up <= 1_001 * total
            &&& -1_001 * total <= 2_000 * down <= 1_001 * total
        }),
{
    let total = crate::web::both(row.upload_total, row.download_total);
    crate::notation_laws::bars_are_as_wide_as_their_part(row.upload_total, total);
    crate::notation_laws::bars_are_as_wide_as_their_part(row.download_total, total);
}

/// The larger of two amounts is one of them and not smaller than the other.
pub proof fn the_larger_amount_is_one_of_both(a: u64, b: u64)
    ensures
        crate::web::larger(a, b) >= a,
        crate::web::larger(a, b) >= b,
        crate::web::larger(a, b) == a || crate::web::larger(a, b) == b,
{
}

/// What was observed of names is taken in before what is over is forgotten; where it could not be
/// had, only the forgetting takes place, and the reason is reported.
pub proof fn names_are_taken_in_and_forgotten(
    before: CacheView,
    after: CacheView,
    got: Result<Vec<DnsObservation>, String>,
    now_ms: i64,
)
    requires
        crate::cycle::refreshed(before, after, got, now_ms),
    ensures
        got is Err ==> after == crate::dns::purged(before, now_ms),
        got matches Ok(batch) ==> after == crate::dns::purged(
            crate::dns::ingested(before, crate::dns::observation_views(batch@), now_ms),
            now_ms,
        ),
        got is Err <==> crate::cycle::refresh_outcome(before, got, now_ms) is Err,
        forall|k: crate::dns::BindingKey|
            after.bindings.dom().contains(k) ==> now_ms < (
            #[trigger] after.bindings[k]).expires_at,
        forall|i: int|
            0 <= i < after.pending.len() ==> now_ms < (
            #[trigger] after.pending[i]).pending_expires_at && now_ms
                < after.pending[i].binding_expires_at,
{
    let c = match got {
        Ok(batch) => crate::dns::ingested(
            before,
            crate::dns::observation_views(batch@),
            now_ms,
        ),
        Err(_) => before,
    };
    let p = |p: crate::dns::PendingView| crate::dns::still_waits(p, now_ms);
    assert forall|i: int| 0 <= i < after.pending.len() implies now_ms < (
    #[trigger] after.pending[i]).pending_expires_at && now_ms
        < after.pending[i].binding_expires_at by {
        let j = crate::ledger_laws::lemma_filter_origin(c.pending, p, i);
    }
}

/// Flows get their names one by one and stay in their order.
pub proof fn flows_are_named_one_by_one(c: CacheView, flows: Seq<FlowView>, i: int)
    requires
        0 <= i < flows.len(),
    ensures
        crate::cycle::all_attributed(c, flows).len() == flows.len(),
        crate::cycle::all_attributed(c, flows)[i] == crate::dns::attributed(c.bindings, flows[i]),
        crate::cycle::all_attributed(c, flows)[i].flow_id == flows[i].flow_id,
        crate::cycle::all_attributed(c, flows)[i].upload_bytes == flows[i].upload_bytes,
        crate::cycle::all_attributed(c, flows)[i].download_bytes == flows[i].download_bytes,
        crate::cycle::all_attributed(c, flows)[i].last_seen == flows[i].last_seen,
{
}

/// Storing is noted with its count, or with what the error says.
pub proof fn storing_is_noted(outcome: Result<usize, StorageError>)
    ensures
        outcome matches Ok(n) ==> crate::cycle::noted(outcome) == Ok::<usize, Seq<char>>(n),
        outcome matches Err(e) ==> crate::cycle::noted(outcome) == Err::<usize, Seq<char>>(
            e.text(),
        ),
{
}

/// The text of salts is made fit for cookies by changing two characters and no other.
pub proof fn salts_become_tokens(c: char)
    ensures
        c != '+' && c != '/' ==> crate::auth::token_char_of(c) == c,
        crate::auth::token_char_of('+') == '-',
        crate::auth::token_char_of('/') == '_',
        crate::crypto::is_base64(c) ==> crate::crypto::is_base64url(crate::auth::token_char_of(c)),
        crate::crypto::is_base64(c) ==> crate::access_laws::may_stand_in_tokens(
            crate::auth::token_char_of(c),
        ),
{
}

/// The lanes of a password hash are those of its last parameter of that name; without one, any
/// number fits.
pub proof fn lanes_are_told_by_the_last_parameter(
    params: Seq<(Seq<char>, Option<u32>)>,
    p: (Seq<char>, Option<u32>),
)
    ensures
        crate::crypto::lanes_of(Seq::empty()) is None,
        p.0 == "p"@ ==> crate::crypto::lanes_of(params.push(p)) == p.1,
        p.0 != "p"@ ==> crate::crypto::lanes_of(params.push(p)) == crate::crypto::lanes_of(params),
        crate::crypto::lanes_fit(params) <==> (crate::crypto::lanes_of(params) matches Some(n)
            ==> 8 * n <= 0xffff_ffff),
{
    assert(params.push(p).drop_last() =~= params);
}

/// The simulator counts its collections one by one.
pub proof fn collections_are_counted(count: u64)
    ensures
        count < u64::MAX ==> crate::simulator::next_tick(count) - count == 1,
        crate::simulator::next_tick(u64::MAX) == u64::MAX,
{
}

/// What was observed of names, or why it could not be had, is handed on as it came.
pub proof fn observations_are_taken_in_or_refused(
    before: CacheView,
    after: CacheView,
    got: Result<Vec<DnsObservation>, String>,
    now: i64,
    r: Result<usize, String>,
)
    requires
        crate::dns::taken_in(before, after, got, now, r),
    ensures
        got is Ok <==> r is Ok,
        got matches Err(e) ==> r == Err::<usize, String>(e) && after == before,
        got matches Ok(batch) ==> after == crate::dns::ingested(
            before,
            crate::dns::observation_views(batch@),
            now,
        ),
        got matches Ok(batch) ==> r->Ok_0 <= crate::dns::ingested_count(
            before,
            crate::dns::observation_views(batch@),
            now,
        ),
        got matches Ok(batch) ==> r->Ok_0 < usize::MAX ==> r->Ok_0 == crate::dns::ingested_count(
            before,
            crate::dns::observation_views(batch@),
            now,
        ),
{
}

/// Everything that is remembered is counted once: each binding, each flow that tells of a client,
/// and each answer that waits.
pub proof fn what_is_remembered_is_counted_once(
    c: CacheView,
    k: crate::dns::BindingKey,
    l: crate::dns::Lifetime,
    id: Seq<char>,
    client: crate::dns::IdentityView,
    p: crate::dns::PendingView,
)
    requires
        c.bindings.dom().finite(),
        c.identities.dom().finite(),
        !c.bindings.dom().contains(k),
        !c.identities.dom().contains(id),
    ensures
        crate::dns::cache_size(
            CacheView {
                bindings: Map::empty(),
                identities: Map::empty(),
                pending: Seq::empty(),
            },
        ) == 0,
        crate::dns::cache_size((CacheView { bindings: c.bindings.insert(k, l), ..c }))
            == crate::dns::cache_size(c) + 1,
        crate::dns::cache_size((CacheView { identities: c.identities.insert(id, client), ..c }))
            == crate::dns::cache_size(c) + 1,
        crate::dns::cache_size((CacheView { pending: c.pending.push(p), ..c }))
            == crate::dns::cache_size(c) + 1,
{
}

/// A request about a device is refused because the device is not there, or because it could not be
/// looked up, and for no other reason.
pub proof fn requests_are_refused_for_a_reason<R: RouteScopeRepository>(
    service: &ObservationService<R>,
    mac: &str,
    status: u16,
)
    ensures
        crate::api::refused(service, mac, status) ==> (status == 404 && call_ensures(
            R::find_device,
            (&service.repo, mac),
            Ok(None),
        )) || (status == 500 && exists|e: StorageError| #[trigger]
            call_ensures(R::find_device, (&service.repo, mac), Err(e))),
        crate::api::device_known(service, mac) ==> exists|d: Device| #[trigger]
            call_ensures(R::find_device, (&service.repo, mac), Ok(Some(d))),
{
    if crate::api::refused(service, mac, status) {
        let found = choose|found: Result<Option<Device>, StorageError>| #[trigger]
            crate::api::looked_up(service, mac, found) && match found {
                Ok(Some(_)) => false,
                Ok(None) => status == 404,
                Err(_) => status == 500,
            };
        if let Err(e) = found {
            assert(call_ensures(R::find_device, (&service.repo, mac), Err(e)));
        }
    }
    if crate::api::device_known(service, mac) {
        let d = choose|d: Device| #[trigger] crate::api::looked_up(service, mac, Ok(Some(d)));
        assert(call_ensures(R::find_device, (&service.repo, mac), Ok(Some(d))));
    }
}

/// The flows of a device that were read for a page are those of the last hours: as many as flows
/// are kept, but no more than a day.
pub open spec fn flows_were_read<R: RouteScopeRepository>(
    service: &ObservationService<R>,
    mac: &str,
    now_ms: i64,
    flows: Vec<Flow>,
) -> bool {
    exists|since: i64|
        crate::query_laws::reaches_back(
            since,
            now_ms,
            if service.flow_retention_hours < 24 {
                service.flow_retention_hours as int
            } else {
                24
            },
        ) && #[trigger] crate::service::page_read(
            &service.repo,
            mac,
            since,
            None,
            FlowPageDirection::Older,
            usize::MAX,
            Ok(flows),
        )
}

/// A device is shown with the sums of the flows that were read for it.
pub proof fn devices_are_shown_with_the_flows_that_were_read<R: RouteScopeRepository>(
    service: &ObservationService<R>,
    device: Device,
    now_ms: i64,
    row: DeviceRow,
)
    requires
        crate::api::device_row_of(service, device, now_ms, row),
    ensures
        exists|mac: &str, flows: Vec<Flow>|
            {
                &&& mac@ == device.mac_address@
                &&& #[trigger] flows_were_read(service, mac, now_ms, flows)
                &&& crate::display_laws::is_sum(
                    row.upload_total,
                    crate::display_laws::flow_sum(crate::dns::flow_views(flows@), true),
                )
                &&& crate::display_laws::is_sum(
                    row.download_total,
                    crate::display_laws::flow_sum(crate::dns::flow_views(flows@), false),
                )
                &&& row.mac_address@ == device.mac_address@
                &&& flows@.len() <= usize::MAX ==> row.flow_count == flows@.len()
            },
{
    let (mac, flows, domains) = choose|
        mac: &str,
        flows: Seq<Flow>,
        domains: Seq<DomainTrafficSummary>,
    |
        mac@ == device.mac_address@ && #[trigger] crate::api::overview_read(
            service,
            mac,
            now_ms,
            flows,
            domains,
        ) && row@ == crate::web::device_shown(
            device@,
            crate::dns::flow_views(flows),
            crate::web::summary_views(domains),
        );
    crate::display_laws::devices_are_shown_with_their_traffic(
        device@,
        crate::dns::flow_views(flows),
        crate::web::summary_views(domains),
    );
    let since = crate::service::overview_start(now_ms, service.flow_retention_hours);
    let f = choose|f: Vec<Flow>|
        f@ == flows && #[trigger] crate::service::page_read(
            &service.repo,
            mac,
            since,
            None,
            FlowPageDirection::Older,
            usize::MAX,
            Ok(f),
        );
    crate::query_laws::windows_reach_back_by_their_hours(
        now_ms,
        service.flow_retention_hours,
        crate::paging::FlowWindow::Hours24,
    );
    assert(crate::service::page_read(
        &service.repo,
        mac,
        since,
        None,
        FlowPageDirection::Older,
        usize::MAX,
        Ok(f),
    ));
    assert(flows_were_read(service, mac, now_ms, f));
    assert(crate::dns::flow_views(f@).len() == f@.len());
    assert(row.upload_total == row@.upload_total);
}

/// The page of a device cannot be shown where something for it could not be read; that is an error
/// of the server.
pub proof fn pages_fail_as_the_server_does<R: RouteScopeRepository>(
    service: &ObservationService<R>,
    mac: &str,
    selected: Option<&str>,
    window: DomainTrendWindow,
    device: Device,
    now_ms: i64,
    r: Result<DevicePage, u16>,
)
    requires
        crate::pages::page_answered(service, mac, selected, window, device, now_ms, r),
    ensures
        r matches Err(status) ==> status == 500,
        r matches Ok(page) ==> exists|readings: DeviceReadings| #[trigger]
            crate::pages::were_read(service, mac, selected, now_ms, readings)
                && crate::pages::page_shows(
                page,
                mac@,
                crate::storage::opt_str_view(selected),
                window,
                page.device@,
                readings,
                now_ms,
            ),
        r matches Ok(page) ==> crate::api::device_row_of(service, device, now_ms, page.device),
{
}

} // verus!
