//! How requests to the management interface are answered.
//!
//! Answers that are not a value are the number of an HTTP status.
use vstd::prelude::*;
use vstd::string::*;

use crate::dns::DnsAttributionCache;
use crate::domain::{
    normalize_display_name, normalize_domain_name, DataDeletionResult, DataTimeRange, Device,
    DeviceMinuteStat, DomainMinuteStat, DomainTrafficSummary, Flow,
};
use crate::paging::{FlowCursorPayload, FlowPage, FlowQueryError};
use crate::service::ObservationService;
use crate::sql::StorageError;
use crate::state::CollectorHealthSnapshot;
use crate::storage::RouteScopeRepository;
use crate::text::str_eq;
use crate::web::{build_device_row, DeviceRow};

verus! {

/// The request was answered.
pub const OK: u16 = 200;

/// The request is malformed.
pub const BAD_REQUEST: u16 = 400;

/// The request may be forged.
pub const FORBIDDEN: u16 = 403;

/// What was asked for is not known.
pub const NOT_FOUND: u16 = 404;

/// The database failed.
pub const INTERNAL_SERVER_ERROR: u16 = 500;

/// The collector is not ready.
pub const SERVICE_UNAVAILABLE: u16 = 503;

/// What the health endpoint says: the process lives, but its collector may not do well.
pub fn health_check(collector: &CollectorHealthSnapshot) -> (r: &'static str)
    ensures
        r@ == if collector.state@ == "unhealthy"@ || collector.state@ == "degraded"@ {
            "degraded"@
        } else {
            "ok"@
        },
{
    if str_eq(collector.state.as_str(), "unhealthy") || str_eq(
        collector.state.as_str(),
        "degraded",
    ) {
        "degraded"
    } else {
        "ok"
    }
}

/// What the readiness endpoint says, with its status.
pub fn readiness_check(collector: &CollectorHealthSnapshot) -> (r: (u16, &'static str))
    ensures
        collector.ready ==> r.0 == OK && r.1@ == "ready"@,
        !collector.ready ==> r.0 == SERVICE_UNAVAILABLE && r.1@ == "starting"@,
{
    if collector.ready {
        (OK, "ready")
    } else {
        (SERVICE_UNAVAILABLE, "starting")
    }
}

/// The status for a page of flows that cannot be shown.
pub fn flow_query_error(error: &FlowQueryError) -> (r: u16)
    ensures
        r == if error is Database {
            INTERNAL_SERVER_ERROR
        } else {
            BAD_REQUEST
        },
{
    if error.is_bad_request() {
        BAD_REQUEST
    } else {
        INTERNAL_SERVER_ERROR
    }
}

/// What was read is the answer, and a failure of the database is one of the server.
pub open spec fn answers<T>(r: Result<T, u16>, read: Result<T, StorageError>) -> bool {
    match read {
        Ok(value) => r == Ok::<T, u16>(value),
        Err(_) => r == Err::<T, u16>(INTERNAL_SERVER_ERROR),
    }
}

fn answer<T>(read: Result<T, StorageError>) -> (r: Result<T, u16>)
    ensures
        answers(r, read),
{
    match read {
        Ok(value) => Ok(value),
        Err(_) => Err(INTERNAL_SERVER_ERROR),
    }
}

/// What was found is the answer; what was not found is not known.
pub open spec fn found_or_missing<T>(
    r: Result<T, u16>,
    found: Result<Option<T>, StorageError>,
) -> bool {
    match found {
        Ok(Some(value)) => r == Ok::<T, u16>(value),
        Ok(None) => r == Err::<T, u16>(NOT_FOUND),
        Err(_) => r == Err::<T, u16>(INTERNAL_SERVER_ERROR),
    }
}

fn require<T>(found: Result<Option<T>, StorageError>) -> (r: Result<T, u16>)
    ensures
        found_or_missing(r, found),
{
    match found {
        Ok(Some(value)) => Ok(value),
        Ok(None) => Err(NOT_FOUND),
        Err(_) => Err(INTERNAL_SERVER_ERROR),
    }
}

/// The repository answered `found` when it was asked for a device.
pub open spec fn looked_up<R: RouteScopeRepository>(
    service: &ObservationService<R>,
    mac_address: &str,
    found: Result<Option<Device>, StorageError>,
) -> bool {
    call_ensures(R::find_device, (&service.repo, mac_address), found)
}

/// A request about a device is refused where the device is not known or cannot be looked up.
pub open spec fn refused<R: RouteScopeRepository>(
    service: &ObservationService<R>,
    mac_address: &str,
    status: u16,
) -> bool {
    exists|found: Result<Option<Device>, StorageError>| #[trigger]
        looked_up(service, mac_address, found) && match found {
            Ok(Some(_)) => false,
            Ok(None) => status == NOT_FOUND,
            Err(_) => status == INTERNAL_SERVER_ERROR,
        }
}

/// The device is known.
pub open spec fn device_known<R: RouteScopeRepository>(
    service: &ObservationService<R>,
    mac_address: &str,
) -> bool {
    exists|device: Device| #[trigger] looked_up(service, mac_address, Ok(Some(device)))
}

/// Checks that a device is known.
pub fn require_device<R: RouteScopeRepository>(
    service: &ObservationService<R>,
    mac_address: &str,
) -> (r: Result<(), u16>)
    ensures
        match r {
            Ok(_) => device_known(service, mac_address),
            Err(status) => refused(service, mac_address, status),
        },
{
    let found = service.device(mac_address);
    proof {
        assert(looked_up(service, mac_address, found));
    }
    match found {
        Ok(Some(device)) => {
            proof {
                assert(looked_up(service, mac_address, Ok(Some(device))));
            }
            Ok(())
        },
        Ok(None) => Err(NOT_FOUND),
        Err(_) => Err(INTERNAL_SERVER_ERROR),
    }
}

/// Lists the devices.
pub fn list_devices<R: RouteScopeRepository>(service: &ObservationService<R>) -> (r: Result<
    Vec<Device>,
    u16,
>)
    ensures
        exists|read: Result<Vec<Device>, StorageError>| #[trigger]
            call_ensures(R::list_devices, (&service.repo,), read) && answers(r, read),
{
    answer(service.devices())
}

/// Shows a device.
pub fn device_detail<R: RouteScopeRepository>(
    service: &ObservationService<R>,
    mac_address: &str,
) -> (r: Result<Device, u16>)
    ensures
        exists|found: Result<Option<Device>, StorageError>| #[trigger]
            looked_up(service, mac_address, found) && found_or_missing(r, found),
{
    let found = service.device(mac_address);
    proof {
        assert(looked_up(service, mac_address, found));
    }
    require(found)
}

/// Lists the traffic of a device.
pub fn device_traffic<R: RouteScopeRepository>(
    service: &ObservationService<R>,
    mac_address: &str,
    now_ms: i64,
) -> (r: Result<Vec<DeviceMinuteStat>, u16>)
    requires
        crate::storage::aggregate_cutoff(now_ms, service.aggregate_retention_days) >= i64::MIN,
    ensures
        (r matches Err(status) && refused(service, mac_address, status)) || (device_known(
            service,
            mac_address,
        ) && exists|read: Result<Vec<DeviceMinuteStat>, StorageError>| #[trigger]
            call_ensures(
                R::list_device_minute_stats,
                (
                    &service.repo,
                    mac_address,
                    crate::storage::aggregate_cutoff(
                        now_ms,
                        service.aggregate_retention_days,
                    ) as i64,
                ),
                read,
            ) && answers(r, read)),
{
    if let Err(status) = require_device(service, mac_address) {
        return Err(status);
    }
    answer(service.device_traffic(mac_address, now_ms))
}

/// Shows a page of the flows of a device.
pub fn device_flows<R: RouteScopeRepository>(
    service: &ObservationService<R>,
    mac_address: &str,
    window: Option<&str>,
    limit: Option<usize>,
    cursor: Option<Option<FlowCursorPayload>>,
    now_ms: i64,
) -> (r: Result<FlowPage, u16>)
    ensures
        (r matches Err(status) && refused(service, mac_address, status)) || (device_known(
            service,
            mac_address,
        ) && match crate::paging::page_request(
            crate::paging::device_key_of(mac_address@),
            service.flow_retention_hours,
            crate::storage::opt_str_view(window),
            limit,
            crate::paging::given_view(cursor),
            now_ms,
        ) {
            Err(_) => r == Err::<FlowPage, u16>(BAD_REQUEST),
            Ok(request) => exists|rows: Result<Vec<Flow>, StorageError>| #[trigger]
                crate::service::page_read(
                    &service.repo,
                    mac_address,
                    request.since_ms,
                    request.anchor,
                    request.direction,
                    (request.limit + 1) as usize,
                    rows,
                ) && match (r, rows) {
                    (Ok(page), Ok(rows)) => page@ == crate::paging::page_of(
                        crate::paging::device_key_of(mac_address@),
                        request,
                        crate::dns::flow_views(rows@),
                    ),
                    (Err(status), Err(_)) => status == INTERNAL_SERVER_ERROR,
                    _ => false,
                },
        }),
{
    if let Err(status) = require_device(service, mac_address) {
        return Err(status);
    }
    match service.flow_page(mac_address, window, limit, cursor, now_ms) {
        Ok(page) => Ok(page),
        Err(error) => Err(flow_query_error(&error)),
    }
}

/// Lists the domains of a device with the most traffic.
pub fn device_domains<R: RouteScopeRepository>(
    service: &ObservationService<R>,
    mac_address: &str,
    now_ms: i64,
) -> (r: Result<Vec<DomainTrafficSummary>, u16>)
    requires
        crate::storage::flow_cutoff(now_ms, service.flow_retention_hours) >= i64::MIN,
    ensures
        (r matches Err(status) && refused(service, mac_address, status)) || (device_known(
            service,
            mac_address,
        ) && exists|read: Result<Vec<DomainTrafficSummary>, StorageError>| #[trigger]
            call_ensures(
                R::list_domain_traffic_top,
                (
                    &service.repo,
                    mac_address,
                    crate::storage::flow_cutoff(now_ms, service.flow_retention_hours) as i64,
                    crate::service::DEFAULT_DOMAIN_TOP_LIMIT,
                ),
                read,
            ) && answers(r, read)),
{
    if let Err(status) = require_device(service, mac_address) {
        return Err(status);
    }
    answer(service.device_domain_top(mac_address, now_ms))
}

/// Lists the traffic of a device with a domain.
pub fn device_domain_traffic<R: RouteScopeRepository>(
    service: &ObservationService<R>,
    mac_address: &str,
    domain: &str,
    now_ms: i64,
) -> (r: Result<Vec<DomainMinuteStat>, u16>)
    requires
        crate::storage::aggregate_cutoff(now_ms, service.aggregate_retention_days) >= i64::MIN,
    ensures
        (r matches Err(status) && refused(service, mac_address, status)) || (device_known(
            service,
            mac_address,
        ) && exists|read: Result<Vec<DomainMinuteStat>, StorageError>| #[trigger]
            call_ensures(
                R::list_domain_minute_stats,
                (
                    &service.repo,
                    mac_address,
                    domain,
                    crate::storage::aggregate_cutoff(
                        now_ms,
                        service.aggregate_retention_days,
                    ) as i64,
                ),
                read,
            ) && answers(r, read)),
{
    if let Err(status) = require_device(service, mac_address) {
        return Err(status);
    }
    answer(service.domain_traffic(mac_address, domain, now_ms))
}

/// Names a device, or takes its name away. A request that may be forged is refused before anything
/// else is looked at.
pub fn update_device_name<R: RouteScopeRepository>(
    service: &mut ObservationService<R>,
    genuine: bool,
    mac_address: &str,
    display_name: Option<&str>,
) -> (r: Result<Device, u16>)
    ensures
        final(service).flow_retention_hours == old(service).flow_retention_hours,
        final(service).aggregate_retention_days == old(service).aggregate_retention_days,
        if !genuine {
            r == Err::<Device, u16>(FORBIDDEN) && *final(service) == *old(service)
        } else {
            match crate::domain::display_name_of(crate::storage::opt_str_view(display_name)) {
                None => r == Err::<Device, u16>(BAD_REQUEST) && *final(service) == *old(service),
                Some(name) => exists|
                    asked: &mut R,
                    text: Option<&str>,
                    known: Result<bool, StorageError>,
                | #[trigger]
                    call_ensures(
                        R::update_device_display_name,
                        (asked, mac_address, text),
                        known,
                    ) && *asked == old(service).repo && (*final(asked)) == final(service).repo
                        && crate::storage::opt_str_view(text) == name && match known {
                        Ok(true) => exists|found: Result<Option<Device>, StorageError>| #[trigger]
                            looked_up(&*final(service), mac_address, found) && found_or_missing(
                                r,
                                found,
                            ),
                        Ok(false) => r == Err::<Device, u16>(NOT_FOUND),
                        Err(_) => r == Err::<Device, u16>(INTERNAL_SERVER_ERROR),
                    },
            }
        },
{
    if !genuine {
        return Err(FORBIDDEN);
    }
    let name = match normalize_display_name(display_name) {
        Ok(name) => name,
        Err(_) => {
            return Err(BAD_REQUEST);
        },
    };
    let text = match &name {
        Some(name) => Some(name.as_str()),
        None => None,
    };
    let known = service.rename_device(mac_address, text);
    match known {
        Ok(true) => {
            let found = service.device(mac_address);
            proof {
                assert(looked_up(service, mac_address, found));
            }
            require(found)
        },
        Ok(false) => Err(NOT_FOUND),
        Err(_) => Err(INTERNAL_SERVER_ERROR),
    }
}

/// What a page does after a device was named.
#[derive(Debug)]
pub enum RenameReply {
    /// Show the page of the device.
    Redirect(String),
    /// Refuse, with a text where there is one.
    Refuse(u16, &'static str),
}

/// Names a device from its page.
pub fn rename_from_page<R: RouteScopeRepository>(
    service: &mut ObservationService<R>,
    genuine: bool,
    mac_address: &str,
    display_name: &str,
) -> (r: RenameReply)
    ensures
        final(service).flow_retention_hours == old(service).flow_retention_hours,
        final(service).aggregate_retention_days == old(service).aggregate_retention_days,
        if !genuine {
            r matches RenameReply::Refuse(status, text) && status == FORBIDDEN && text@
                == "Invalid CSRF token."@ && *final(service) == *old(service)
        } else {
            match crate::domain::display_name_of(Some(display_name@)) {
                None => r matches RenameReply::Refuse(
                    status,
                    text,
                ) && status == BAD_REQUEST && text@
                    == "display name must be at most 128 non-control characters"@ && *final(service)
                    == *old(service),
                Some(name) => exists|
                    asked: &mut R,
                    text: Option<&str>,
                    known: Result<bool, StorageError>,
                | #[trigger]
                    call_ensures(
                        R::update_device_display_name,
                        (asked, mac_address, text),
                        known,
                    ) && *asked == old(service).repo && (*final(asked)) == final(service).repo
                        && crate::storage::opt_str_view(text) == name && match known {
                        Ok(true) => r matches RenameReply::Redirect(to) && to@ == "/devices/"@
                            + mac_address@,
                        Ok(false) => r matches RenameReply::Refuse(status, text) && status
                            == NOT_FOUND && text@ == ""@,
                        Err(_) => r matches RenameReply::Refuse(status, text) && status
                            == INTERNAL_SERVER_ERROR && text@ == ""@,
                    },
            }
        },
{
    if !genuine {
        return RenameReply::Refuse(FORBIDDEN, "Invalid CSRF token.");
    }
    let name = match normalize_display_name(Some(display_name)) {
        Ok(name) => name,
        Err(error) => {
            return RenameReply::Refuse(BAD_REQUEST, error);
        },
    };
    let text = match &name {
        Some(name) => Some(name.as_str()),
        None => None,
    };
    let known = service.rename_device(mac_address, text);
    match known {
        Ok(true) => {
            let mut to = "/devices/".to_owned();
            to.append(mac_address);
            RenameReply::Redirect(to)
        },
        Ok(false) => RenameReply::Refuse(NOT_FOUND, ""),
        Err(_) => RenameReply::Refuse(INTERNAL_SERVER_ERROR, ""),
    }
}

/// Removes a device with everything that was observed of it, here and from what is remembered of
/// names.
pub fn delete_device_data<R: RouteScopeRepository>(
    service: &mut ObservationService<R>,
    cache: &mut DnsAttributionCache,
    genuine: bool,
    mac_address: &str,
) -> (r: Result<DataDeletionResult, u16>)
    requires
        old(cache).wf(),
    ensures
        final(service).flow_retention_hours == old(service).flow_retention_hours,
        final(service).aggregate_retention_days == old(service).aggregate_retention_days,
        final(cache).wf(),
        final(cache)@ == if r is Ok {
            crate::dns::without_device(old(cache)@, mac_address@)
        } else {
            old(cache)@
        },
        if !genuine {
            r == Err::<DataDeletionResult, u16>(FORBIDDEN) && *final(service) == *old(service)
        } else {
            exists|asked: &mut R, done: Result<Option<DataDeletionResult>, StorageError>| #[trigger]
                call_ensures(R::delete_device_data, (asked, mac_address), done) && *asked == old(
                    service,
                ).repo && (*final(asked)) == final(service).repo && found_or_missing(r, done)
        },
{
    if !genuine {
        return Err(FORBIDDEN);
    }
    match require(service.delete_device_data(mac_address)) {
        Ok(result) => {
            cache.purge_device_data(mac_address);
            Ok(result)
        },
        Err(status) => Err(status),
    }
}

/// Removes a domain from the observations of one device, which must be known.
pub fn delete_device_domain_data<R: RouteScopeRepository>(
    service: &mut ObservationService<R>,
    cache: &mut DnsAttributionCache,
    genuine: bool,
    mac_address: &str,
    domain: &str,
) -> (r: Result<DataDeletionResult, u16>)
    requires
        old(cache).wf(),
    ensures
        final(service).flow_retention_hours == old(service).flow_retention_hours,
        final(service).aggregate_retention_days == old(service).aggregate_retention_days,
        final(cache).wf(),
        final(cache)@ == if r is Ok {
            crate::dns::without_domain(
                old(cache)@,
                Some(mac_address@),
                crate::dns::domain_of(domain@)->0,
            )
        } else {
            old(cache)@
        },
        if !genuine {
            r == Err::<DataDeletionResult, u16>(FORBIDDEN) && *final(service) == *old(service)
        } else {
            (r matches Err(status) && refused(&*old(service), mac_address, status) && *final(service)
                == *old(service)) || (device_known(&*old(service), mac_address)
                && match crate::dns::domain_of(domain@) {
                None => r == Err::<DataDeletionResult, u16>(BAD_REQUEST) && *final(service)
                    == *old(service),
                Some(wanted) => exists|
                    asked: &mut R,
                    mac: Option<&str>,
                    name: &str,
                    done: Result<DataDeletionResult, StorageError>,
                | #[trigger]
                    call_ensures(R::delete_domain_data, (asked, mac, name), done) && *asked == old(
                        service,
                    ).repo && (*final(asked)) == final(service).repo && name@ == wanted
                        && crate::storage::opt_str_view(mac) == Some(mac_address@) && answers(
                        r,
                        done,
                    ),
            })
        },
{
    if !genuine {
        return Err(FORBIDDEN);
    }
    if let Err(status) = require_device(&*service, mac_address) {
        return Err(status);
    }
    let name = match normalize_domain_name(domain) {
        Ok(name) => name,
        Err(_) => {
            return Err(BAD_REQUEST);
        },
    };
    let outcome = answer(service.delete_domain_data(Some(mac_address), name.as_str()));
    match outcome {
        Ok(result) => {
            cache.purge_domain_data(Some(mac_address), name.as_str());
            Ok(result)
        },
        Err(status) => Err(status),
    }
}

/// Removes a domain from the observations of all devices.
pub fn delete_global_domain_data<R: RouteScopeRepository>(
    service: &mut ObservationService<R>,
    cache: &mut DnsAttributionCache,
    genuine: bool,
    domain: &str,
) -> (r: Result<DataDeletionResult, u16>)
    requires
        old(cache).wf(),
    ensures
        final(service).flow_retention_hours == old(service).flow_retention_hours,
        final(service).aggregate_retention_days == old(service).aggregate_retention_days,
        final(cache).wf(),
        final(cache)@ == if r is Ok {
            crate::dns::without_domain(old(cache)@, None, crate::dns::domain_of(domain@)->0)
        } else {
            old(cache)@
        },
        if !genuine {
            r == Err::<DataDeletionResult, u16>(FORBIDDEN) && *final(service) == *old(service)
        } else {
            match crate::dns::domain_of(domain@) {
                None => r == Err::<DataDeletionResult, u16>(BAD_REQUEST) && *final(service)
                    == *old(service),
                Some(wanted) => exists|
                    asked: &mut R,
                    mac: Option<&str>,
                    name: &str,
                    done: Result<DataDeletionResult, StorageError>,
                | #[trigger]
                    call_ensures(R::delete_domain_data, (asked, mac, name), done) && *asked == old(
                        service,
                    ).repo && (*final(asked)) == final(service).repo && name@ == wanted
                        && mac is None && answers(r, done),
            }
        },
{
    if !genuine {
        return Err(FORBIDDEN);
    }
    let name = match normalize_domain_name(domain) {
        Ok(name) => name,
        Err(_) => {
            return Err(BAD_REQUEST);
        },
    };
    let outcome = answer(service.delete_domain_data(None, name.as_str()));
    match outcome {
        Ok(result) => {
            cache.purge_domain_data(None, name.as_str());
            Ok(result)
        },
        Err(status) => Err(status),
    }
}

/// Removes what was observed in a range of time, of which both ends must be given.
pub fn delete_time_range_data<R: RouteScopeRepository>(
    service: &mut ObservationService<R>,
    cache: &mut DnsAttributionCache,
    genuine: bool,
    from_ms: Option<i64>,
    to_ms: Option<i64>,
) -> (r: Result<DataDeletionResult, u16>)
    requires
        old(cache).wf(),
    ensures
        final(service).flow_retention_hours == old(service).flow_retention_hours,
        final(service).aggregate_retention_days == old(service).aggregate_retention_days,
        final(cache).wf(),
        final(cache)@ == if r is Ok {
            crate::dns::without_range(old(cache)@, from_ms->0, to_ms->0)
        } else {
            old(cache)@
        },
        if !genuine {
            r == Err::<DataDeletionResult, u16>(FORBIDDEN) && *final(service) == *old(service)
        } else if from_ms is None || to_ms is None || from_ms->0 >= to_ms->0 {
            r == Err::<DataDeletionResult, u16>(BAD_REQUEST) && *final(service) == *old(service)
        } else {
            exists|asked: &mut R, done: Result<DataDeletionResult, StorageError>| #[trigger]
                call_ensures(R::delete_data_range, (asked, from_ms->0, to_ms->0), done) && *asked
                    == old(service).repo && (*final(asked)) == final(service).repo && answers(
                    r,
                    done,
                )
        },
{
    if !genuine {
        return Err(FORBIDDEN);
    }
    let range = match DataTimeRange::new(from_ms, to_ms) {
        Ok(range) => range,
        Err(_) => {
            return Err(BAD_REQUEST);
        },
    };
    match answer(service.delete_data_range(range)) {
        Ok(result) => {
            cache.purge_data_range(range);
            Ok(result)
        },
        Err(status) => Err(status),
    }
}

/// The repository answered with these flows and domains when it was asked what to show of a device.
pub open spec fn overview_read<R: RouteScopeRepository>(
    service: &ObservationService<R>,
    mac_address: &str,
    now_ms: i64,
    flows: Seq<Flow>,
    domains: Seq<DomainTrafficSummary>,
) -> bool {
    &&& exists|f: Vec<Flow>|
        f@ == flows && #[trigger] crate::service::page_read(
            &service.repo,
            mac_address,
            crate::service::overview_start(now_ms, service.flow_retention_hours),
            None,
            crate::domain::FlowPageDirection::Older,
            usize::MAX,
            Ok(f),
        )
    &&& exists|d: Vec<DomainTrafficSummary>|
        d@ == domains && #[trigger] call_ensures(
            R::list_domain_traffic_top,
            (
                &service.repo,
                mac_address,
                crate::storage::flow_cutoff(now_ms, service.flow_retention_hours) as i64,
                crate::service::DEFAULT_DOMAIN_TOP_LIMIT,
            ),
            Ok(d),
        )
}

/// The device is shown with what the repository answered about it.
pub open spec fn device_row_of<R: RouteScopeRepository>(
    service: &ObservationService<R>,
    device: Device,
    now_ms: i64,
    row: DeviceRow,
) -> bool {
    exists|mac: &str, flows: Seq<Flow>, domains: Seq<DomainTrafficSummary>|
        mac@ == device.mac_address@ && #[trigger] overview_read(
            service,
            mac,
            now_ms,
            flows,
            domains,
        ) && row@ == crate::web::device_shown(
            device@,
            crate::dns::flow_views(flows),
            crate::web::summary_views(domains),
        )
}

/// The flows or the domains of a device could not be read.
pub open spec fn overview_failed<R: RouteScopeRepository>(
    service: &ObservationService<R>,
    device: Device,
    now_ms: i64,
) -> bool {
    ||| exists|mac: &str, e: StorageError|
        mac@ == device.mac_address@ && #[trigger] flows_failed(service, mac, now_ms, e)
    ||| exists|mac: &str, e: StorageError|
        mac@ == device.mac_address@ && #[trigger] domains_failed(service, mac, now_ms, e)
}

/// The flows of a device could not be read.
pub open spec fn flows_failed<R: RouteScopeRepository>(
    service: &ObservationService<R>,
    mac: &str,
    now_ms: i64,
    e: StorageError,
) -> bool {
    crate::service::page_read(
        &service.repo,
        mac,
        crate::service::overview_start(now_ms, service.flow_retention_hours),
        None,
        crate::domain::FlowPageDirection::Older,
        usize::MAX,
        Err(e),
    )
}

/// The domains of a device could not be read.
pub open spec fn domains_failed<R: RouteScopeRepository>(
    service: &ObservationService<R>,
    mac: &str,
    now_ms: i64,
    e: StorageError,
) -> bool {
    call_ensures(
        R::list_domain_traffic_top,
        (
            &service.repo,
            mac,
            crate::storage::flow_cutoff(now_ms, service.flow_retention_hours) as i64,
            crate::service::DEFAULT_DOMAIN_TOP_LIMIT,
        ),
        Err(e),
    )
}

/// The flows or the domains of one of the devices could not be read.
pub open spec fn some_overview_failed<R: RouteScopeRepository>(
    service: &ObservationService<R>,
    devices: Seq<Device>,
    now_ms: i64,
) -> bool {
    exists|k: int| 0 <= k < devices.len() && overview_failed(service, #[trigger] devices[k], now_ms)
}

/// The devices could not be listed, or one of those that were could not be looked into.
pub open spec fn listing_failed<R: RouteScopeRepository>(
    service: &ObservationService<R>,
    now_ms: i64,
) -> bool {
    ||| exists|e: StorageError| #[trigger] call_ensures(R::list_devices, (&service.repo,), Err(e))
    ||| exists|devices: Vec<Device>| #[trigger]
        call_ensures(R::list_devices, (&service.repo,), Ok(devices)) && some_overview_failed(
            service,
            devices@,
            now_ms,
        )
}

/// Prepares a device for a page.
pub fn device_row<R: RouteScopeRepository>(
    service: &ObservationService<R>,
    device: &Device,
    now_ms: i64,
) -> (r: Result<DeviceRow, u16>)
    requires
        crate::storage::flow_cutoff(now_ms, service.flow_retention_hours) >= i64::MIN,
    ensures
        match r {
            Ok(row) => device_row_of(service, *device, now_ms, row),
            Err(status) => status == INTERNAL_SERVER_ERROR && overview_failed(
                service,
                *device,
                now_ms,
            ),
        },
{
    let mac = device.mac_address.as_str();
    let flows = match service.recent_flows(mac, now_ms) {
        Ok(flows) => flows,
        Err(e) => {
            proof {
                assert(flows_failed(service, mac, now_ms, e));
            }
            return Err(INTERNAL_SERVER_ERROR);
        },
    };
    let domains = match service.device_domain_top(mac, now_ms) {
        Ok(domains) => domains,
        Err(e) => {
            proof {
                assert(domains_failed(service, mac, now_ms, e));
            }
            return Err(INTERNAL_SERVER_ERROR);
        },
    };
    let row = build_device_row(device, &flows, &domains);
    proof {
        let read: Result<Vec<Flow>, StorageError> = Ok(flows);
        assert(crate::service::page_read(
            &service.repo,
            mac,
            crate::service::overview_start(now_ms, service.flow_retention_hours),
            None,
            crate::domain::FlowPageDirection::Older,
            usize::MAX,
            read,
        ));
        assert(overview_read(service, mac, now_ms, flows@, domains@));
    }
    Ok(row)
}

/// Prepares all devices for a page.
pub fn build_device_rows<R: RouteScopeRepository>(
    service: &ObservationService<R>,
    now_ms: i64,
) -> (r: Result<Vec<DeviceRow>, u16>)
    requires
        crate::storage::flow_cutoff(now_ms, service.flow_retention_hours) >= i64::MIN,
    ensures
        match r {
            Ok(rows) => exists|devices: Vec<Device>|
                {
                    &&& #[trigger] call_ensures(R::list_devices, (&service.repo,), Ok(devices))
                    &&& rows@.len() == devices@.len()
                    &&& forall|k: int|
                        0 <= k < rows@.len() ==> device_row_of(
                            service,
                            devices@[k],
                            now_ms,
                            #[trigger] rows@[k],
                        )
                },
            Err(status) => status == INTERNAL_SERVER_ERROR && listing_failed(service, now_ms),
        },
{
    let devices = match service.devices() {
        Ok(devices) => devices,
        Err(_) => {
            return Err(INTERNAL_SERVER_ERROR);
        },
    };
    let mut rows: Vec<DeviceRow> = Vec::new();
    let mut i: usize = 0;
    while i < devices.len()
        invariant
            crate::storage::flow_cutoff(now_ms, service.flow_retention_hours) >= i64::MIN,
            call_ensures(R::list_devices, (&service.repo,), Ok(devices)),
            i <= devices@.len(),
            rows@.len() == i,
            forall|k: int|
                0 <= k < i ==> device_row_of(
                    service,
                    devices@[k],
                    now_ms,
                    #[trigger] rows@[k],
                ),
        decreases devices@.len() - i,
    {
        match device_row(service, &devices[i], now_ms) {
            Ok(row) => {
                rows.push(row);
            },
            Err(status) => {
                proof {
                    assert(overview_failed(service, devices@[i as int], now_ms));
                    assert(some_overview_failed(service, devices@, now_ms));
                }
                return Err(status);
            },
        }
        i = i + 1;
    }
    Ok(rows)
}

} // verus!
