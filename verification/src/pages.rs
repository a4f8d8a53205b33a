//! The page of one device: what is read for it and what it shows.
use vstd::prelude::*;
use vstd::string::*;

use crate::api::{device_row, BAD_REQUEST, INTERNAL_SERVER_ERROR, NOT_FOUND};
use crate::domain::{Device, DeviceMinuteStat, DomainMinuteStat, DomainTrafficSummary, Flow};
use crate::service::ObservationService;
use crate::sql::StorageError;
use crate::storage::RouteScopeRepository;
use crate::web::{
    build_domain_traffic_rows_at, build_traffic_rows, device_meters, domain_row, domain_trend_href,
    flow_row, have_spans, DeviceRow, DomainRow, DomainTrendWindow, FlowRow, TrafficRow,
};

verus! {

/// What the page of a device shows.
#[derive(Debug)]
pub struct DevicePage {
    pub device: DeviceRow,
    pub traffic: Vec<TrafficRow>,
    pub domains: Vec<DomainRow>,
    pub show_domain_trend: bool,
    pub selected_domain: String,
    pub domain_traffic: Vec<TrafficRow>,
    pub domain_window_label: &'static str,
    pub domain_24h_href: String,
    pub domain_30d_href: String,
    pub domain_24h_active: bool,
    pub domain_30d_active: bool,
    pub device_total_meter: u8,
    pub device_upload_meter: u8,
    pub device_download_meter: u8,
    pub flows: Vec<FlowRow>,
}

/// What was read for the page of a device.
#[derive(Debug)]
pub struct DeviceReadings {
    pub flows: Vec<Flow>,
    pub traffic: Vec<DeviceMinuteStat>,
    pub domains: Vec<DomainTrafficSummary>,
    /// The traffic with the domain that was picked; nothing where none was.
    pub domain_traffic: Vec<DomainMinuteStat>,
}

/// The domain that was picked; an empty one is none.
pub open spec fn picked(domain: Option<Seq<char>>) -> Option<Seq<char>> {
    match domain {
        Some(d) => if d.len() > 0 {
            Some(d)
        } else {
            None
        },
        None => None,
    }
}

/// The link to the trend of the domain that was picked; empty where none was.
pub open spec fn picked_link(
    mac: Seq<char>,
    selected: Option<Seq<char>>,
    window: DomainTrendWindow,
) -> Seq<char> {
    match selected {
        Some(domain) => crate::web::trend_link(mac, domain, window),
        None => ""@,
    }
}

/// The rows show the trend of the traffic with a domain.
pub open spec fn shows_trend(
    rows: Seq<TrafficRow>,
    stats: Seq<DomainMinuteStat>,
    window: DomainTrendWindow,
    now_ms: i64,
) -> bool {
    exists|buckets: Seq<crate::web::Bucket>|
        crate::web::summed_up(
            buckets,
            stats,
            window,
            crate::num::clamp_i64(now_ms - window.length_ms()),
        ) && crate::web::traffic_views(rows) == #[trigger] crate::web::all_traffic_shown(buckets)
}

/// The page shows a device with what was read of it.
pub open spec fn page_shows(
    page: DevicePage,
    mac: Seq<char>,
    selected: Option<Seq<char>>,
    window: DomainTrendWindow,
    row: crate::web::DeviceRowView,
    readings: DeviceReadings,
    now_ms: i64,
) -> bool {
    let total = crate::web::both(row.upload_total, row.download_total);
    &&& page.device@ == row
    &&& crate::web::traffic_views(page.traffic@) == crate::web::all_traffic_shown(
        crate::web::recent_minutes(readings.traffic@, now_ms),
    )
    &&& page.domains@.len() == readings.domains@.len()
    &&& forall|k: int|
        #![trigger page.domains@[k]]
        0 <= k < readings.domains@.len() ==> page.domains@[k]@ == crate::web::domain_shown(
            mac,
            selected,
            readings.domains@[k]@,
        )
    &&& page.show_domain_trend == selected is Some
    &&& page.selected_domain@ == match selected {
        Some(domain) => domain,
        None => ""@,
    }
    &&& shows_trend(page.domain_traffic@, readings.domain_traffic@, window, now_ms)
    &&& page.domain_window_label@ == window.label_text()
    &&& page.domain_24h_href@ == picked_link(mac, selected, DomainTrendWindow::Hours24)
    &&& page.domain_30d_href@ == picked_link(mac, selected, DomainTrendWindow::Days30)
    &&& page.domain_24h_active == (window == DomainTrendWindow::Hours24)
    &&& page.domain_30d_active == (window == DomainTrendWindow::Days30)
    &&& page.device_total_meter == if total > 0 {
        100u8
    } else {
        0u8
    }
    &&& page.device_upload_meter == crate::format::percent(row.upload_total, total)
    &&& page.device_download_meter == crate::format::percent(row.download_total, total)
    &&& page.flows@.len() == readings.flows@.len()
    &&& forall|k: int|
        #![trigger page.flows@[k]]
        0 <= k < readings.flows@.len() ==> page.flows@[k]@ == crate::web::flow_shown(
            readings.flows@[k]@,
        )
}

/// The link to the trend of the domain that was picked.
fn trend_href(mac_address: &str, selected: Option<&str>, window: DomainTrendWindow) -> (r: String)
    ensures
        r@ == picked_link(mac_address@, crate::storage::opt_str_view(selected), window),
{
    match selected {
        Some(domain) => domain_trend_href(mac_address, domain, window),
        None => "".to_owned(),
    }
}

/// Shows every domain.
fn domain_rows(
    mac_address: &str,
    selected: Option<&str>,
    domains: &Vec<DomainTrafficSummary>,
) -> (r: Vec<DomainRow>)
    ensures
        r@.len() == domains@.len(),
        forall|k: int|
            #![trigger r@[k]]
            0 <= k < domains@.len() ==> r@[k]@ == crate::web::domain_shown(
                mac_address@,
                crate::storage::opt_str_view(selected),
                domains@[k]@,
            ),
{
    let mut out: Vec<DomainRow> = Vec::new();
    let mut i: usize = 0;
    while i < domains.len()
        invariant
            i <= domains@.len(),
            out@.len() == i,
            forall|k: int|
                #![trigger out@[k]]
                0 <= k < i ==> out@[k]@ == crate::web::domain_shown(
                    mac_address@,
                    crate::storage::opt_str_view(selected),
                    domains@[k]@,
                ),
        decreases domains@.len() - i,
    {
        out.push(domain_row(mac_address, selected, &domains[i]));
        i = i + 1;
    }
    out
}

/// Shows every flow.
fn flow_rows(flows: &Vec<Flow>) -> (r: Vec<FlowRow>)
    ensures
        r@.len() == flows@.len(),
        forall|k: int|
            #![trigger r@[k]]
            0 <= k < flows@.len() ==> r@[k]@ == crate::web::flow_shown(flows@[k]@),
{
    let mut out: Vec<FlowRow> = Vec::new();
    let mut i: usize = 0;
    while i < flows.len()
        invariant
            i <= flows@.len(),
            out@.len() == i,
            forall|k: int|
                #![trigger out@[k]]
                0 <= k < i ==> out@[k]@ == crate::web::flow_shown(flows@[k]@),
        decreases flows@.len() - i,
    {
        out.push(flow_row(&flows[i]));
        i = i + 1;
    }
    out
}

/// Composes the page of a device from what was read of it.
pub fn compose_page(
    mac_address: &str,
    selected: Option<&str>,
    window: DomainTrendWindow,
    row: DeviceRow,
    readings: &DeviceReadings,
    now_ms: i64,
) -> (r: DevicePage)
    requires
        crate::web::spans_fit(readings.domain_traffic@, window, now_ms),
    ensures
        page_shows(
            r,
            mac_address@,
            crate::storage::opt_str_view(selected),
            window,
            row@,
            *readings,
            now_ms,
        ),
{
    let meters = device_meters(&row);
    let domain_traffic = build_domain_traffic_rows_at(&readings.domain_traffic, window, now_ms);
    let (domain_24h_active, domain_30d_active) = match window {
        DomainTrendWindow::Hours24 => (true, false),
        DomainTrendWindow::Days30 => (false, true),
    };
    DevicePage {
        device: row,
        traffic: build_traffic_rows(&readings.traffic, now_ms),
        domains: domain_rows(mac_address, selected, &readings.domains),
        show_domain_trend: selected.is_some(),
        selected_domain: match selected {
            Some(domain) => domain.to_owned(),
            None => "".to_owned(),
        },
        domain_traffic,
        domain_window_label: window.label(),
        domain_24h_href: trend_href(mac_address, selected, DomainTrendWindow::Hours24),
        domain_30d_href: trend_href(mac_address, selected, DomainTrendWindow::Days30),
        domain_24h_active,
        domain_30d_active,
        device_total_meter: meters.total,
        device_upload_meter: meters.upload,
        device_download_meter: meters.download,
        flows: flow_rows(&readings.flows),
    }
}

/// Asked for the traffic of a device by the minute, the repository answered `r`.
pub open spec fn traffic_answered<R: RouteScopeRepository>(
    service: &ObservationService<R>,
    mac: &str,
    now_ms: i64,
    r: Result<Vec<DeviceMinuteStat>, StorageError>,
) -> bool {
    call_ensures(
        R::list_device_minute_stats,
        (
            &service.repo,
            mac,
            crate::storage::aggregate_cutoff(now_ms, service.aggregate_retention_days) as i64,
        ),
        r,
    )
}

/// Asked for the traffic of a device with a domain, the repository answered `r`.
pub open spec fn trend_answered<R: RouteScopeRepository>(
    service: &ObservationService<R>,
    mac: &str,
    domain: &str,
    now_ms: i64,
    r: Result<Vec<DomainMinuteStat>, StorageError>,
) -> bool {
    call_ensures(
        R::list_domain_minute_stats,
        (
            &service.repo,
            mac,
            domain,
            crate::storage::aggregate_cutoff(now_ms, service.aggregate_retention_days) as i64,
        ),
        r,
    )
}

/// The readings are what the repository answered.
pub open spec fn were_read<R: RouteScopeRepository>(
    service: &ObservationService<R>,
    mac: &str,
    selected: Option<&str>,
    now_ms: i64,
    readings: DeviceReadings,
) -> bool {
    &&& crate::api::overview_read(
        service,
        mac,
        now_ms,
        readings.flows@,
        readings.domains@,
    )
    &&& traffic_answered(service, mac, now_ms, Ok(readings.traffic))
    &&& match selected {
        Some(domain) => trend_answered(
            service,
            mac,
            domain,
            now_ms,
            Ok(readings.domain_traffic),
        ),
        None => readings.domain_traffic@.len() == 0,
    }
}

/// The repository failed to answer one of the questions about a device.
pub open spec fn reading_failed<R: RouteScopeRepository>(
    service: &ObservationService<R>,
    mac: &str,
    selected: Option<&str>,
    now_ms: i64,
) -> bool {
    ||| exists|e: StorageError| #[trigger] crate::api::flows_failed(service, mac, now_ms, e)
    ||| exists|e: StorageError| #[trigger] crate::api::domains_failed(service, mac, now_ms, e)
    ||| exists|e: StorageError| #[trigger] traffic_answered(service, mac, now_ms, Err(e))
    ||| selected is Some && exists|e: StorageError| #[trigger]
        trend_answered(service, mac, selected->0, now_ms, Err(e))
}

/// Reads what the page of a device shows.
pub fn read_device<R: RouteScopeRepository>(
    service: &ObservationService<R>,
    mac_address: &str,
    selected: Option<&str>,
    now_ms: i64,
) -> (r: Result<DeviceReadings, u16>)
    requires
        crate::storage::aggregate_cutoff(now_ms, service.aggregate_retention_days) >= i64::MIN,
        crate::storage::flow_cutoff(now_ms, service.flow_retention_hours) >= i64::MIN,
    ensures
        match r {
            Ok(readings) => were_read(service, mac_address, selected, now_ms, readings),
            Err(status) => status == INTERNAL_SERVER_ERROR && reading_failed(
                service,
                mac_address,
                selected,
                now_ms,
            ),
        },
{
    let flows = match service.recent_flows(mac_address, now_ms) {
        Ok(flows) => flows,
        Err(e) => {
            proof {
                assert(crate::api::flows_failed(service, mac_address, now_ms, e));
            }
            return Err(INTERNAL_SERVER_ERROR);
        },
    };
    let traffic = match service.device_traffic(mac_address, now_ms) {
        Ok(traffic) => traffic,
        Err(e) => {
            proof {
                assert(traffic_answered(service, mac_address, now_ms, Err(e)));
            }
            return Err(INTERNAL_SERVER_ERROR);
        },
    };
    let domains = match service.device_domain_top(mac_address, now_ms) {
        Ok(domains) => domains,
        Err(e) => {
            proof {
                assert(crate::api::domains_failed(service, mac_address, now_ms, e));
            }
            return Err(INTERNAL_SERVER_ERROR);
        },
    };
    let domain_traffic = match selected {
        Some(domain) => match service.domain_traffic(mac_address, domain, now_ms) {
            Ok(stats) => stats,
            Err(e) => {
                proof {
                    assert(trend_answered(service, mac_address, domain, now_ms, Err(e)));
                }
                return Err(INTERNAL_SERVER_ERROR);
            },
        },
        None => Vec::new(),
    };
    proof {
        let read: Result<Vec<Flow>, StorageError> = Ok(flows);
        assert(crate::service::page_read(
            &service.repo,
            mac_address,
            crate::service::overview_start(now_ms, service.flow_retention_hours),
            None,
            crate::domain::FlowPageDirection::Older,
            usize::MAX,
            read,
        ));
        assert(crate::api::overview_read(service, mac_address, now_ms, flows@, domains@));
    }
    Ok(DeviceReadings { flows, traffic, domains, domain_traffic })
}

/// How a request for the page of a known device is answered: the page, or an error of the server
/// where something could not be read, or a minute to show is so early that its span has no
/// beginning.
pub open spec fn page_answered<R: RouteScopeRepository>(
    service: &ObservationService<R>,
    mac: &str,
    selected: Option<&str>,
    window: DomainTrendWindow,
    device: Device,
    now_ms: i64,
    r: Result<DevicePage, u16>,
) -> bool {
    match r {
        Ok(page) => exists|readings: DeviceReadings| #[trigger]
            were_read(service, mac, selected, now_ms, readings) && page_shows(
                page,
                mac@,
                crate::storage::opt_str_view(selected),
                window,
                page.device@,
                readings,
                now_ms,
            ) && crate::api::device_row_of(service, device, now_ms, page.device),
        Err(status) => status == INTERNAL_SERVER_ERROR && (reading_failed(
            service,
            mac,
            selected,
            now_ms,
        ) || crate::api::overview_failed(service, device, now_ms) || exists|
            readings: DeviceReadings,
        | #[trigger]
            were_read(service, mac, selected, now_ms, readings) && !crate::web::spans_fit(
                readings.domain_traffic@,
                window,
                now_ms,
            )),
    }
}

/// The domain that was picked.
fn pick(domain: Option<&str>) -> (r: Option<&str>)
    ensures
        crate::storage::opt_str_view(r) == picked(crate::storage::opt_str_view(domain)),
{
    match domain {
        Some(d) => if d.unicode_len() > 0 {
            Some(d)
        } else {
            None
        },
        None => None,
    }
}

/// Prepares the page of a device, with the trend of the domain that was picked. An unknown window
/// is a bad request, an unknown device is not found.
pub fn device_page<R: RouteScopeRepository>(
    service: &ObservationService<R>,
    mac_address: &str,
    domain: Option<&str>,
    domain_window: Option<&str>,
    now_ms: i64,
) -> (r: Result<DevicePage, u16>)
    requires
        crate::storage::aggregate_cutoff(now_ms, service.aggregate_retention_days) >= i64::MIN,
        crate::storage::flow_cutoff(now_ms, service.flow_retention_hours) >= i64::MIN,
    ensures
        match crate::web::trend_window_of(crate::storage::opt_str_view(domain_window)) {
            None => r == Err::<DevicePage, u16>(BAD_REQUEST),
            Some(window) => exists|found: Result<Option<Device>, StorageError>| #[trigger]
                crate::api::looked_up(service, mac_address, found) && match found {
                    Err(_) => r == Err::<DevicePage, u16>(INTERNAL_SERVER_ERROR),
                    Ok(None) => r == Err::<DevicePage, u16>(NOT_FOUND),
                    Ok(Some(device)) => exists|selected: Option<&str>|
                        crate::storage::opt_str_view(selected) == picked(
                            crate::storage::opt_str_view(domain),
                        ) && #[trigger] page_answered(
                            service,
                            mac_address,
                            selected,
                            window,
                            device,
                            now_ms,
                            r,
                        ),
                },
        },
{
    let window = match DomainTrendWindow::parse(domain_window) {
        Ok(window) => window,
        Err(status) => {
            return Err(status);
        },
    };
    let selected = pick(domain);
    let found = service.device(mac_address);
    proof {
        assert(crate::api::looked_up(service, mac_address, found));
    }
    let device = match found {
        Ok(Some(device)) => device,
        Ok(None) => {
            return Err(NOT_FOUND);
        },
        Err(_) => {
            return Err(INTERNAL_SERVER_ERROR);
        },
    };
    let readings = match read_device(service, mac_address, selected, now_ms) {
        Ok(readings) => readings,
        Err(status) => {
            let r: Result<DevicePage, u16> = Err(status);
            proof {
                assert(page_answered(service, mac_address, selected, window, device, now_ms, r));
            }
            return r;
        },
    };
    let row = match device_row(service, &device, now_ms) {
        Ok(row) => row,
        Err(status) => {
            let r: Result<DevicePage, u16> = Err(status);
            proof {
                assert(page_answered(service, mac_address, selected, window, device, now_ms, r));
            }
            return r;
        },
    };
    proof {
        assert(were_read(service, mac_address, selected, now_ms, readings));
    }
    if !have_spans(&readings.domain_traffic, window, now_ms) {
        let r: Result<DevicePage, u16> = Err(INTERNAL_SERVER_ERROR);
        proof {
            assert(page_answered(service, mac_address, selected, window, device, now_ms, r));
        }
        return r;
    }
    let page = compose_page(mac_address, selected, window, row, &readings, now_ms);
    let r: Result<DevicePage, u16> = Ok(page);
    proof {
        assert(page_answered(service, mac_address, selected, window, device, now_ms, r));
    }
    r
}

} // verus!
