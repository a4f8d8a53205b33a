//! What the program does with a repository.
use vstd::prelude::*;
use vstd::string::*;

use crate::domain::{
    DataDeletionResult, DataTimeRange, Device, DeviceFlowSummary, DeviceMinuteStat,
    DomainMinuteStat, DomainTrafficSummary, Flow, FlowPageAnchor, FlowPageDirection,
    ResolvedDomainBinding,
};
use crate::num::saturating_sub_i64;
use crate::paging::{
    finish_page, request_page, FlowCursorPayload, FlowPage, FlowQueryError, FlowWindow,
};
use crate::sql::StorageError;
use crate::storage::RouteScopeRepository;

verus! {

/// How many domains are listed.
pub const DEFAULT_DOMAIN_TOP_LIMIT: usize = 20;

/// Answers questions about what was observed, and keeps it for as long as it should be kept.
pub struct ObservationService<R: RouteScopeRepository> {
    pub repo: R,
    pub flow_retention_hours: u32,
    pub aggregate_retention_days: u32,
}

/// The repository answered `rows` when asked for a page.
pub open spec fn page_read<R: RouteScopeRepository>(
    repo: &R,
    mac_address: &str,
    since_ms: i64,
    anchor: Option<(i64, Seq<char>)>,
    direction: FlowPageDirection,
    limit: usize,
    rows: Result<Vec<Flow>, StorageError>,
) -> bool {
    exists|at: Option<&FlowPageAnchor>| #[trigger]
        call_ensures(
            R::list_flow_page,
            (repo, mac_address, since_ms, at, direction, limit),
            rows,
        ) && crate::sqlite::anchor_view(at) == anchor
}

/// The time from which the overview shows flows: a day, or as long as they are kept.
pub open spec fn overview_start(now_ms: i64, hours: u32) -> i64 {
    crate::paging::later(
        crate::paging::retention_cutoff(now_ms, hours),
        crate::paging::window_start(now_ms, FlowWindow::Hours24),
    )
}

impl<R: RouteScopeRepository> ObservationService<R> {
    /// Makes a service for a repository and the times for which flows and minutes are kept.
    pub fn new(repo: R, flow_retention_hours: u32, aggregate_retention_days: u32) -> (r: Self)
        ensures
            r == (ObservationService { repo, flow_retention_hours, aggregate_retention_days }),
    {
        ObservationService { repo, flow_retention_hours, aggregate_retention_days }
    }

    /// Lists the devices.
    pub fn devices(&self) -> (r: Result<Vec<Device>, StorageError>)
        ensures
            call_ensures(R::list_devices, (&self.repo,), r),
    {
        self.repo.list_devices()
    }

    /// Finds a device.
    pub fn device(&self, mac_address: &str) -> (r: Result<Option<Device>, StorageError>)
        ensures
            call_ensures(R::find_device, (&self.repo, mac_address), r),
    {
        self.repo.find_device(mac_address)
    }

    /// Shows a page of the flows of a device. The first page is asked for by window and limit, the
    /// others by a cursor alone, which is absent inside where it could not be read.
    pub fn flow_page(
        &self,
        mac_address: &str,
        window: Option<&str>,
        limit: Option<usize>,
        cursor: Option<Option<FlowCursorPayload>>,
        now_ms: i64,
    ) -> (r: Result<FlowPage, FlowQueryError>)
        ensures
            match crate::paging::page_request(
                crate::paging::device_key_of(mac_address@),
                self.flow_retention_hours,
                crate::storage::opt_str_view(window),
                limit,
                crate::paging::given_view(cursor),
                now_ms,
            ) {
                Err(fault) => r matches Err(e) && crate::paging::reports(e, fault),
                Ok(request) => exists|rows: Result<Vec<Flow>, StorageError>| #[trigger]
                    page_read(
                        &self.repo,
                        mac_address,
                        request.since_ms,
                        request.anchor,
                        request.direction,
                        (request.limit + 1) as usize,
                        rows,
                    ) && match (r, rows) {
                        (Ok(page), Ok(rows)) => page@ == crate::paging::page_of(
                            crate::paging::device_key_of(mac_address@),
                            request,
                            crate::dns::flow_views(rows@),
                        ),
                        (Err(FlowQueryError::Database(e)), Err(x)) => e == x,
                        _ => false,
                    },
            },
    {
        let request = match request_page(
            mac_address,
            self.flow_retention_hours,
            window,
            limit,
            cursor,
            now_ms,
        ) {
            Ok(request) => request,
            Err(e) => {
                return Err(e);
            },
        };
        let anchor = match &request.anchor {
            Some(anchor) => Some(anchor),
            None => None,
        };
        let rows = self.repo.list_flow_page(
            mac_address,
            request.since_ms,
            anchor,
            request.direction,
            request.limit + 1,
        );
        proof {
            assert(page_read(
                &self.repo,
                mac_address,
                request@.since_ms,
                request@.anchor,
                request@.direction,
                (request@.limit + 1) as usize,
                rows,
            ));
        }
        match rows {
            Ok(rows) => Ok(finish_page(mac_address, &request, rows)),
            Err(e) => Err(FlowQueryError::Database(e)),
        }
    }

    /// Lists the recent flows of a device, the latest first.
    pub fn recent_flows(&self, mac_address: &str, now_ms: i64) -> (r: Result<
        Vec<Flow>,
        StorageError,
    >)
        ensures
            page_read(
                &self.repo,
                mac_address,
                overview_start(now_ms, self.flow_retention_hours),
                None,
                FlowPageDirection::Older,
                usize::MAX,
                r,
            ),
    {
        let cutoff: i64 = self.overview_cutoff(now_ms);
        self.repo.list_flow_page(mac_address, cutoff, None, FlowPageDirection::Older, usize::MAX)
    }

    fn overview_cutoff(&self, now_ms: i64) -> (r: i64)
        ensures
            r == overview_start(now_ms, self.flow_retention_hours),
    {
        let kept_since: i64 = saturating_sub_i64(
            now_ms,
            self.flow_retention_hours as i64 * 3_600_000,
        );
        let day_ago: i64 = saturating_sub_i64(now_ms, FlowWindow::Hours24.duration_ms());
        if kept_since >= day_ago {
            kept_since
        } else {
            day_ago
        }
    }

    /// Sums up the recent flows of a device.
    pub fn recent_flow_summary(&self, mac_address: &str, now_ms: i64) -> (r: Result<
        DeviceFlowSummary,
        StorageError,
    >)
        ensures
            call_ensures(
                R::summarize_recent_flows,
                (&self.repo, mac_address, overview_start(now_ms, self.flow_retention_hours)),
                r,
            ),
    {
        let cutoff: i64 = self.overview_cutoff(now_ms);
        self.repo.summarize_recent_flows(mac_address, cutoff)
    }

    /// Lists the traffic of a device by the minute, for as long as minutes are kept.
    pub fn device_traffic(&self, mac_address: &str, now_ms: i64) -> (r: Result<
        Vec<DeviceMinuteStat>,
        StorageError,
    >)
        requires
            crate::storage::aggregate_cutoff(now_ms, self.aggregate_retention_days) >= i64::MIN,
        ensures
            call_ensures(
                R::list_device_minute_stats,
                (
                    &self.repo,
                    mac_address,
                    crate::storage::aggregate_cutoff(
                        now_ms,
                        self.aggregate_retention_days,
                    ) as i64,
                ),
                r,
            ),
    {
        let cutoff: i64 = now_ms - self.aggregate_retention_days as i64 * 86_400_000;
        self.repo.list_device_minute_stats(mac_address, cutoff)
    }

    /// Lists the traffic of a device with a domain by the minute, for as long as minutes are kept.
    pub fn domain_traffic(&self, mac_address: &str, domain: &str, now_ms: i64) -> (r: Result<
        Vec<DomainMinuteStat>,
        StorageError,
    >)
        requires
            crate::storage::aggregate_cutoff(now_ms, self.aggregate_retention_days) >= i64::MIN,
        ensures
            call_ensures(
                R::list_domain_minute_stats,
                (
                    &self.repo,
                    mac_address,
                    domain,
                    crate::storage::aggregate_cutoff(
                        now_ms,
                        self.aggregate_retention_days,
                    ) as i64,
                ),
                r,
            ),
    {
        let cutoff: i64 = now_ms - self.aggregate_retention_days as i64 * 86_400_000;
        self.repo.list_domain_minute_stats(mac_address, domain, cutoff)
    }

    /// Lists the domains with the most traffic of a device, for as long as flows are kept.
    pub fn device_domain_top(&self, mac_address: &str, now_ms: i64) -> (r: Result<
        Vec<DomainTrafficSummary>,
        StorageError,
    >)
        requires
            crate::storage::flow_cutoff(now_ms, self.flow_retention_hours) >= i64::MIN,
        ensures
            call_ensures(
                R::list_domain_traffic_top,
                (
                    &self.repo,
                    mac_address,
                    crate::storage::flow_cutoff(now_ms, self.flow_retention_hours) as i64,
                    DEFAULT_DOMAIN_TOP_LIMIT,
                ),
                r,
            ),
    {
        let cutoff: i64 = now_ms - self.flow_retention_hours as i64 * 3_600_000;
        self.repo.list_domain_traffic_top(mac_address, cutoff, DEFAULT_DOMAIN_TOP_LIMIT)
    }

    /// Names a device, and tells whether it is known.
    pub fn rename_device(&mut self, mac_address: &str, display_name: Option<&str>) -> (r: Result<
        bool,
        StorageError,
    >)
        ensures
            exists|asked: &mut R| #[trigger]
                call_ensures(
                    R::update_device_display_name,
                    (asked, mac_address, display_name),
                    r,
                ) && *asked == old(self).repo && (*final(asked)) == final(self).repo,
            final(self).flow_retention_hours == old(self).flow_retention_hours,
            final(self).aggregate_retention_days == old(self).aggregate_retention_days,
    {
        self.repo.update_device_display_name(mac_address, display_name)
    }

    /// Stores flows, and tells how many.
    pub fn ingest_flows(&mut self, flows: &Vec<Flow>) -> (r: Result<usize, StorageError>)
        ensures
            exists|asked: &mut R| #[trigger]
                call_ensures(R::upsert_flows, (asked, flows), r) && *asked
                    == old(self).repo && (*final(asked)) == final(self).repo,
            final(self).flow_retention_hours == old(self).flow_retention_hours,
            final(self).aggregate_retention_days == old(self).aggregate_retention_days,
    {
        self.repo.upsert_flows(flows)
    }

    /// Applies bindings that were resolved late to flows that are stored already.
    pub fn backfill_domain_bindings(&mut self, bindings: &Vec<ResolvedDomainBinding>) -> (r: Result<
        usize,
        StorageError,
    >)
        ensures
            exists|asked: &mut R| #[trigger]
                call_ensures(R::backfill_domain_bindings, (asked, bindings), r) && *asked
                    == old(self).repo && (*final(asked)) == final(self).repo,
            final(self).flow_retention_hours == old(self).flow_retention_hours,
            final(self).aggregate_retention_days == old(self).aggregate_retention_days,
    {
        self.repo.backfill_domain_bindings(bindings)
    }

    /// Removes a device with everything that was observed of it.
    pub fn delete_device_data(&mut self, mac_address: &str) -> (r: Result<
        Option<DataDeletionResult>,
        StorageError,
    >)
        ensures
            exists|asked: &mut R| #[trigger]
                call_ensures(R::delete_device_data, (asked, mac_address), r) && *asked
                    == old(self).repo && (*final(asked)) == final(self).repo,
            final(self).flow_retention_hours == old(self).flow_retention_hours,
            final(self).aggregate_retention_days == old(self).aggregate_retention_days,
    {
        self.repo.delete_device_data(mac_address)
    }

    /// Removes a domain from the observations of one device or of all.
    pub fn delete_domain_data(&mut self, mac_address: Option<&str>, domain: &str) -> (r: Result<
        DataDeletionResult,
        StorageError,
    >)
        ensures
            exists|asked: &mut R| #[trigger]
                call_ensures(R::delete_domain_data, (asked, mac_address, domain), r) && *asked
                    == old(self).repo && (*final(asked)) == final(self).repo,
            final(self).flow_retention_hours == old(self).flow_retention_hours,
            final(self).aggregate_retention_days == old(self).aggregate_retention_days,
    {
        self.repo.delete_domain_data(mac_address, domain)
    }

    /// Removes what was observed in a range of time.
    pub fn delete_data_range(&mut self, range: DataTimeRange) -> (r: Result<
        DataDeletionResult,
        StorageError,
    >)
        ensures
            exists|asked: &mut R| #[trigger]
                call_ensures(R::delete_data_range, (asked, range.from_ms, range.to_ms), r) && *asked
                    == old(self).repo && (*final(asked)) == final(self).repo,
            final(self).flow_retention_hours == old(self).flow_retention_hours,
            final(self).aggregate_retention_days == old(self).aggregate_retention_days,
    {
        self.repo.delete_data_range(range.from_ms, range.to_ms)
    }

    /// Removes what is no longer kept.
    pub fn cleanup_expired_data(&mut self, now_ms: i64) -> (r: Result<(usize, usize), StorageError>)
        requires
            crate::storage::flow_cutoff(now_ms, old(self).flow_retention_hours) >= i64::MIN,
            crate::storage::aggregate_cutoff(now_ms, old(self).aggregate_retention_days) >= i64::MIN,
        ensures
            exists|asked: &mut R| #[trigger]
                call_ensures(
                    R::delete_expired_data,
                    (
                        asked,
                        now_ms,
                        old(self).flow_retention_hours,
                        old(self).aggregate_retention_days,
                    ),
                    r,
                ) && *asked == old(self).repo && (*final(asked)) == final(self).repo,
            final(self).flow_retention_hours == old(self).flow_retention_hours,
            final(self).aggregate_retention_days == old(self).aggregate_retention_days,
    {
        self.repo.delete_expired_data(
            now_ms,
            self.flow_retention_hours,
            self.aggregate_retention_days,
        )
    }
}

} // verus!
