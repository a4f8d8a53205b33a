//! What the management pages show.
use vstd::prelude::*;
use vstd::string::*;

use crate::domain::{Device, DeviceMinuteStat, DomainMinuteStat, DomainTrafficSummary, Flow};
use crate::format::{
    format_bytes, format_timestamp, percent_encode_component, relative_meter,
};
use crate::num::saturating_sub_i64;
use crate::text::{decimal_string, push_decimal, str_eq};

verus! {

/// How far back the traffic of a device is shown, in milliseconds.
pub const TRAFFIC_WINDOW_MS: i64 = 86_400_000;

/// How many minutes of the traffic of a device are shown.
pub const TRAFFIC_ROW_LIMIT: usize = 180;

/// A device on a page.
#[derive(Debug)]
pub struct DeviceRow {
    pub mac_address: String,
    pub display_name: String,
    pub raw_name: String,
    pub current_ip: String,
    pub upload_total: u64,
    pub download_total: u64,
    pub upload_bytes: String,
    pub download_bytes: String,
    pub total_bytes: String,
    pub flow_count: usize,
    pub last_seen: String,
    pub top_domain: String,
    pub top_domain_meta: String,
}

/// A device on a page, as a mathematical value.
#[verifier::ext_equal]
pub struct DeviceRowView {
    pub mac_address: Seq<char>,
    pub display_name: Seq<char>,
    pub raw_name: Seq<char>,
    pub current_ip: Seq<char>,
    pub upload_total: u64,
    pub download_total: u64,
    pub upload_bytes: Seq<char>,
    pub download_bytes: Seq<char>,
    pub total_bytes: Seq<char>,
    pub flow_count: usize,
    pub last_seen: Seq<char>,
    pub top_domain: Seq<char>,
    pub top_domain_meta: Seq<char>,
}

impl View for DeviceRow {
    type V = DeviceRowView;

    open spec fn view(&self) -> DeviceRowView {
        DeviceRowView {
            mac_address: self.mac_address@,
            display_name: self.display_name@,
            raw_name: self.raw_name@,
            current_ip: self.current_ip@,
            upload_total: self.upload_total,
            download_total: self.download_total,
            upload_bytes: self.upload_bytes@,
            download_bytes: self.download_bytes@,
            total_bytes: self.total_bytes@,
            flow_count: self.flow_count,
            last_seen: self.last_seen@,
            top_domain: self.top_domain@,
            top_domain_meta: self.top_domain_meta@,
        }
    }
}

/// The traffic of a span of time on a page. Its bar is as wide as its traffic is large beside the
/// largest of the list, in hundredths.
#[derive(Debug)]
pub struct TrafficRow {
    pub minute: String,
    pub upload_bytes: String,
    pub download_bytes: String,
    pub total_bytes: String,
    pub bar_width: u8,
}

/// The traffic of a span of time, as a mathematical value.
#[verifier::ext_equal]
pub struct TrafficRowView {
    pub minute: Seq<char>,
    pub upload_bytes: Seq<char>,
    pub download_bytes: Seq<char>,
    pub total_bytes: Seq<char>,
    pub bar_width: u8,
}

impl View for TrafficRow {
    type V = TrafficRowView;

    open spec fn view(&self) -> TrafficRowView {
        TrafficRowView {
            minute: self.minute@,
            upload_bytes: self.upload_bytes@,
            download_bytes: self.download_bytes@,
            total_bytes: self.total_bytes@,
            bar_width: self.bar_width,
        }
    }
}

/// A domain on a page.
#[derive(Debug)]
pub struct DomainRow {
    pub domain: String,
    pub trend_href: String,
    pub selected: bool,
    pub upload_bytes: String,
    pub download_bytes: String,
    pub total_bytes: String,
    pub source: String,
    pub confidence: String,
}

/// A domain on a page, as a mathematical value.
#[verifier::ext_equal]
pub struct DomainRowView {
    pub domain: Seq<char>,
    pub trend_href: Seq<char>,
    pub selected: bool,
    pub upload_bytes: Seq<char>,
    pub download_bytes: Seq<char>,
    pub total_bytes: Seq<char>,
    pub source: Seq<char>,
    pub confidence: Seq<char>,
}

impl View for DomainRow {
    type V = DomainRowView;

    open spec fn view(&self) -> DomainRowView {
        DomainRowView {
            domain: self.domain@,
            trend_href: self.trend_href@,
            selected: self.selected,
            upload_bytes: self.upload_bytes@,
            download_bytes: self.download_bytes@,
            total_bytes: self.total_bytes@,
            source: self.source@,
            confidence: self.confidence@,
        }
    }
}

/// A flow on a page.
#[derive(Debug)]
pub struct FlowRow {
    pub last_seen: String,
    pub protocol: String,
    pub client_endpoint: String,
    pub destination_endpoint: String,
    pub nat_mapping: String,
    pub upload_bytes: String,
    pub download_bytes: String,
    pub packet_count: String,
    pub domain: String,
    pub source: String,
    pub confidence: String,
    pub connection_state: String,
}

/// A flow on a page, as a mathematical value.
#[verifier::ext_equal]
pub struct FlowRowView {
    pub last_seen: Seq<char>,
    pub protocol: Seq<char>,
    pub client_endpoint: Seq<char>,
    pub destination_endpoint: Seq<char>,
    pub nat_mapping: Seq<char>,
    pub upload_bytes: Seq<char>,
    pub download_bytes: Seq<char>,
    pub packet_count: Seq<char>,
    pub domain: Seq<char>,
    pub source: Seq<char>,
    pub confidence: Seq<char>,
    pub connection_state: Seq<char>,
}

impl View for FlowRow {
    type V = FlowRowView;

    open spec fn view(&self) -> FlowRowView {
        FlowRowView {
            last_seen: self.last_seen@,
            protocol: self.protocol@,
            client_endpoint: self.client_endpoint@,
            destination_endpoint: self.destination_endpoint@,
            nat_mapping: self.nat_mapping@,
            upload_bytes: self.upload_bytes@,
            download_bytes: self.download_bytes@,
            packet_count: self.packet_count@,
            domain: self.domain@,
            source: self.source@,
            confidence: self.confidence@,
            connection_state: self.connection_state@,
        }
    }
}

/// The window of time for which the traffic with a domain is shown.
#[derive(Debug, Clone, Copy, PartialEq, Eq, Structural)]
pub enum DomainTrendWindow {
    Hours24,
    Days30,
}

/// The window that a text names; a day where none is given.
pub open spec fn trend_window_of(value: Option<Seq<char>>) -> Option<DomainTrendWindow> {
    let text = match value {
        Some(text) => text,
        None => "24h"@,
    };
    if text == "24h"@ {
        Some(DomainTrendWindow::Hours24)
    } else if text == "30d"@ {
        Some(DomainTrendWindow::Days30)
    } else {
        None
    }
}

impl DomainTrendWindow {
    /// The text that names the window.
    pub open spec fn text(self) -> Seq<char> {
        match self {
            DomainTrendWindow::Hours24 => "24h"@,
            DomainTrendWindow::Days30 => "30d"@,
        }
    }

    /// The length of the window in milliseconds.
    pub open spec fn length_ms(self) -> i64 {
        match self {
            DomainTrendWindow::Hours24 => 86_400_000,
            DomainTrendWindow::Days30 => 2_592_000_000,
        }
    }

    /// The length in milliseconds of the spans for which traffic is summed up.
    pub open spec fn span_ms(self) -> i64 {
        match self {
            DomainTrendWindow::Hours24 => 600_000,
            DomainTrendWindow::Days30 => 21_600_000,
        }
    }

    /// Finds the window that a text names; another text is a bad request.
    pub fn parse(value: Option<&str>) -> (r: Result<Self, u16>)
        ensures
            match r {
                Ok(window) => trend_window_of(crate::storage::opt_str_view(value)) == Some(window),
                Err(status) => trend_window_of(crate::storage::opt_str_view(value)) is None
                    && status == 400,
            },
    {
        let text = match value {
            Some(text) => text,
            None => "24h",
        };
        if str_eq(text, "24h") {
            Ok(DomainTrendWindow::Hours24)
        } else if str_eq(text, "30d") {
            Ok(DomainTrendWindow::Days30)
        } else {
            Err(400)
        }
    }

    /// The text that names the window.
    pub fn query_value(self) -> (r: &'static str)
        ensures
            r@ == self.text(),
    {
        match self {
            DomainTrendWindow::Hours24 => "24h",
            DomainTrendWindow::Days30 => "30d",
        }
    }

    /// How the window is described.
    pub open spec fn label_text(self) -> Seq<char> {
        match self {
            DomainTrendWindow::Hours24 => "24 小时 / 10 分钟桶"@,
            DomainTrendWindow::Days30 => "30 天 / 6 小时桶"@,
        }
    }

    /// The text that describes the window.
    pub fn label(self) -> (r: &'static str)
        ensures
            r@ == self.label_text(),
    {
        match self {
            DomainTrendWindow::Hours24 => "24 小时 / 10 分钟桶",
            DomainTrendWindow::Days30 => "30 天 / 6 小时桶",
        }
    }

    /// The length of the window in milliseconds.
    pub fn duration_ms(self) -> (r: i64)
        ensures
            r == self.length_ms(),
    {
        match self {
            DomainTrendWindow::Hours24 => 86_400_000,
            DomainTrendWindow::Days30 => 2_592_000_000,
        }
    }

    /// The length in milliseconds of the spans for which traffic is summed up.
    pub fn bucket_ms(self) -> (r: i64)
        ensures
            r == self.span_ms(),
    {
        match self {
            DomainTrendWindow::Hours24 => 600_000,
            DomainTrendWindow::Days30 => 21_600_000,
        }
    }
}

/// The traffic of flows in one direction.
pub open spec fn flow_total(flows: Seq<crate::domain::FlowView>, up: bool) -> int
    decreases flows.len(),
{
    if flows.len() == 0 {
        0
    } else {
        flow_total(flows.drop_last(), up) + if up {
            flows.last().upload_bytes
        } else {
            flows.last().download_bytes
        }
    }
}

/// The time at which the latest of some flows was last seen.
pub open spec fn latest(flows: Seq<crate::domain::FlowView>) -> Option<i64>
    decreases flows.len(),
{
    if flows.len() == 0 {
        None
    } else {
        match latest(flows.drop_last()) {
            Some(t) => if t > flows.last().last_seen {
                Some(t)
            } else {
                Some(flows.last().last_seen)
            },
            None => Some(flows.last().last_seen),
        }
    }
}

/// The sum of two amounts, as far as it fits.
pub open spec fn both(a: u64, b: u64) -> u64 {
    crate::num::clamp_u64(a + b)
}

/// A device as a page shows it, with its recent flows and its domains by traffic.
pub open spec fn device_shown(
    device: crate::domain::DeviceView,
    flows: Seq<crate::domain::FlowView>,
    domains: Seq<crate::domain::DomainTrafficSummaryView>,
) -> DeviceRowView {
    let name = match device.display_name {
        Some(name) => name,
        None => ""@,
    };
    let upload = crate::num::clamp_u64(flow_total(flows, true));
    let download = crate::num::clamp_u64(flow_total(flows, false));
    DeviceRowView {
        mac_address: device.mac_address,
        display_name: if name.len() == 0 {
            "未命名设备"@
        } else {
            name
        },
        raw_name: name,
        current_ip: match device.current_ip {
            Some(ip) => ip,
            None => "未知"@,
        },
        upload_total: upload,
        download_total: download,
        upload_bytes: crate::format::bytes_text(upload),
        download_bytes: crate::format::bytes_text(download),
        total_bytes: crate::format::bytes_text(both(upload, download)),
        flow_count: flows.len() as usize,
        last_seen: match latest(flows) {
            Some(t) => crate::format::timestamp_text(t),
            None => "暂无"@,
        },
        top_domain: if domains.len() > 0 {
            domains[0].domain
        } else {
            "未知"@
        },
        top_domain_meta: if domains.len() > 0 {
            domains[0].source.text() + " / "@ + domains[0].confidence.text()
        } else {
            "unknown / unknown"@
        },
    }
}

/// The views of a list of domain summaries.
pub open spec fn summary_views(s: Seq<DomainTrafficSummary>) -> Seq<
    crate::domain::DomainTrafficSummaryView,
> {
    s.map_values(|d: DomainTrafficSummary| d@)
}

/// Prepares a device for a page.
pub fn build_device_row(
    device: &Device,
    flows: &Vec<Flow>,
    domains: &Vec<DomainTrafficSummary>,
) -> (r: DeviceRow)
    ensures
        r@ == device_shown(device@, crate::dns::flow_views(flows@), summary_views(domains@)),
{
    let ghost views = crate::dns::flow_views(flows@);
    let mut upload: u64 = 0;
    let mut download: u64 = 0;
    let mut last: Option<i64> = None;
    let mut i: usize = 0;
    while i < flows.len()
        invariant
            views == crate::dns::flow_views(flows@),
            i <= flows@.len(),
            flow_total(views.take(i as int), true) >= 0,
            flow_total(views.take(i as int), false) >= 0,
            upload == crate::num::clamp_u64(flow_total(views.take(i as int), true)),
            download == crate::num::clamp_u64(flow_total(views.take(i as int), false)),
            last == latest(views.take(i as int)),
        decreases flows@.len() - i,
    {
        proof {
            assert(views.take(i + 1).drop_last() =~= views.take(i as int));
            assert(views.take(i + 1).last() == flows@[i as int]@);
        }
        upload = upload.saturating_add(flows[i].upload_bytes);
        download = download.saturating_add(flows[i].download_bytes);
        last = match last {
            Some(t) => if t > flows[i].last_seen {
                Some(t)
            } else {
                Some(flows[i].last_seen)
            },
            None => Some(flows[i].last_seen),
        };
        i = i + 1;
    }
    proof {
        assert(views.take(i as int) =~= views);
        if domains@.len() > 0 {
            assert(summary_views(domains@)[0] == domains@[0]@);
        }
    }
    let (top_domain, top_domain_meta) = if domains.len() > 0 {
        let mut meta = domains[0].source.as_str().to_owned();
        meta.append(" / ");
        meta.append(domains[0].confidence.as_str());
        (domains[0].domain.clone(), meta)
    } else {
        ("未知".to_owned(), "unknown / unknown".to_owned())
    };
    let raw_name = match &device.display_name {
        Some(name) => name.clone(),
        None => "".to_owned(),
    };
    let display_name = if crate::domain::is_blank(&raw_name) {
        "未命名设备".to_owned()
    } else {
        raw_name.clone()
    };
    DeviceRow {
        mac_address: device.mac_address.clone(),
        display_name,
        raw_name,
        current_ip: match &device.current_ip {
            Some(ip) => ip.clone(),
            None => "未知".to_owned(),
        },
        upload_total: upload,
        download_total: download,
        upload_bytes: format_bytes(upload),
        download_bytes: format_bytes(download),
        total_bytes: format_bytes(upload.saturating_add(download)),
        flow_count: flows.len(),
        last_seen: match last {
            Some(t) => format_timestamp(t),
            None => "暂无".to_owned(),
        },
        top_domain,
        top_domain_meta,
    }
}

/// The traffic of all devices on a page.
#[derive(Debug)]
pub struct DeviceTotals {
    pub upload: u64,
    pub download: u64,
    pub flow_count: usize,
    pub upload_bytes: String,
    pub download_bytes: String,
    pub upload_meter: u8,
    pub download_meter: u8,
}

/// The larger of two amounts.
pub open spec fn larger(a: u64, b: u64) -> u64 {
    if a >= b {
        a
    } else {
        b
    }
}

/// The traffic of devices in one direction.
pub open spec fn device_total(rows: Seq<DeviceRow>, up: bool) -> int
    decreases rows.len(),
{
    if rows.len() == 0 {
        0
    } else {
        device_total(rows.drop_last(), up) + if up {
            rows.last().upload_total
        } else {
            rows.last().download_total
        }
    }
}

/// The number of flows of devices.
pub open spec fn flow_count(rows: Seq<DeviceRow>) -> int
    decreases rows.len(),
{
    if rows.len() == 0 {
        0
    } else {
        flow_count(rows.drop_last()) + rows.last().flow_count
    }
}

/// Sums up the devices on a page.
pub fn summarize_device_rows(devices: &Vec<DeviceRow>) -> (r: DeviceTotals)
    ensures
        r.upload == crate::num::clamp_u64(device_total(devices@, true)),
        r.download == crate::num::clamp_u64(device_total(devices@, false)),
        r.flow_count == if flow_count(devices@) > usize::MAX {
            usize::MAX as int
        } else {
            flow_count(devices@)
        },
        r.upload_bytes@ == crate::format::bytes_text(r.upload),
        r.download_bytes@ == crate::format::bytes_text(r.download),
        r.upload_meter == crate::format::percent(r.upload, larger(r.upload, r.download)),
        r.download_meter == crate::format::percent(r.download, larger(r.upload, r.download)),
{
    let mut upload: u64 = 0;
    let mut download: u64 = 0;
    let mut count: usize = 0;
    let mut i: usize = 0;
    while i < devices.len()
        invariant
            i <= devices@.len(),
            device_total(devices@.take(i as int), true) >= 0,
            device_total(devices@.take(i as int), false) >= 0,
            flow_count(devices@.take(i as int)) >= 0,
            upload == crate::num::clamp_u64(device_total(devices@.take(i as int), true)),
            download == crate::num::clamp_u64(device_total(devices@.take(i as int), false)),
            count == if flow_count(devices@.take(i as int)) > usize::MAX {
                usize::MAX as int
            } else {
                flow_count(devices@.take(i as int))
            },
        decreases devices@.len() - i,
    {
        proof {
            assert(devices@.take(i + 1).drop_last() =~= devices@.take(i as int));
            assert(devices@.take(i + 1).last() == devices@[i as int]);
        }
        upload = upload.saturating_add(devices[i].upload_total);
        download = download.saturating_add(devices[i].download_total);
        count = count.saturating_add(devices[i].flow_count);
        i = i + 1;
    }
    proof {
        assert(devices@.take(i as int) =~= devices@);
    }
    let most: u64 = if upload >= download {
        upload
    } else {
        download
    };
    DeviceTotals {
        upload,
        download,
        flow_count: count,
        upload_bytes: format_bytes(upload),
        download_bytes: format_bytes(download),
        upload_meter: relative_meter(upload, most),
        download_meter: relative_meter(download, most),
    }
}

/// The bars on the page of a device, in hundredths.
#[derive(Debug, Clone, Copy, PartialEq, Eq)]
pub struct DeviceMeters {
    pub total: u8,
    pub upload: u8,
    pub download: u8,
}

/// Finds the bars on the page of a device: its uploads and downloads beside all its traffic.
pub fn device_meters(row: &DeviceRow) -> (r: DeviceMeters)
    ensures
        ({
            let total = both(row.upload_total, row.download_total);
            &&& r.total == if total > 0 {
                100u8
            } else {
                0u8
            }
            &&& r.upload == crate::format::percent(row.upload_total, total)
            &&& r.download == crate::format::percent(row.download_total, total)
        }),
{
    let total: u64 = row.upload_total.saturating_add(row.download_total);
    DeviceMeters {
        total: if total > 0 {
            100
        } else {
            0
        },
        upload: relative_meter(row.upload_total, total),
        download: relative_meter(row.download_total, total),
    }
}

/// Traffic of a span of time that begins at `start_ms`.
#[derive(Debug, Clone, Copy, PartialEq, Eq)]
pub struct Bucket {
    pub start_ms: i64,
    pub upload: u64,
    pub download: u64,
}

/// The largest traffic of a list.
pub open spec fn largest(buckets: Seq<Bucket>) -> u64
    decreases buckets.len(),
{
    if buckets.len() == 0 {
        0
    } else {
        let before = largest(buckets.drop_last());
        let total = both(buckets.last().upload, buckets.last().download);
        if total > before {
            total
        } else {
            before
        }
    }
}

/// The traffic of a span as a page shows it.
pub open spec fn traffic_shown(b: Bucket, max_total: u64) -> TrafficRowView {
    TrafficRowView {
        minute: crate::format::timestamp_text(b.start_ms),
        upload_bytes: crate::format::bytes_text(b.upload),
        download_bytes: crate::format::bytes_text(b.download),
        total_bytes: crate::format::bytes_text(both(b.upload, b.download)),
        bar_width: crate::format::percent(both(b.upload, b.download), max_total) as u8,
    }
}

/// Traffic by spans of time as a page shows it.
pub open spec fn all_traffic_shown(buckets: Seq<Bucket>) -> Seq<TrafficRowView> {
    buckets.map_values(|b: Bucket| traffic_shown(b, largest(buckets)))
}

/// The views of a list of traffic rows.
pub open spec fn traffic_views(s: Seq<TrafficRow>) -> Seq<TrafficRowView> {
    s.map_values(|r: TrafficRow| r@)
}

fn traffic_rows(buckets: &Vec<Bucket>) -> (r: Vec<TrafficRow>)
    ensures
        traffic_views(r@) == all_traffic_shown(buckets@),
{
    let mut max_total: u64 = 0;
    let mut i: usize = 0;
    while i < buckets.len()
        invariant
            i <= buckets@.len(),
            max_total == largest(buckets@.take(i as int)),
        decreases buckets@.len() - i,
    {
        proof {
            assert(buckets@.take(i + 1).drop_last() =~= buckets@.take(i as int));
            assert(buckets@.take(i + 1).last() == buckets@[i as int]);
        }
        let total: u64 = buckets[i].upload.saturating_add(buckets[i].download);
        if total > max_total {
            max_total = total;
        }
        i = i + 1;
    }
    proof {
        assert(buckets@.take(i as int) =~= buckets@);
    }
    let mut out: Vec<TrafficRow> = Vec::new();
    let mut k: usize = 0;
    while k < buckets.len()
        invariant
            k <= buckets@.len(),
            out@.len() == k,
            max_total == largest(buckets@),
            forall|j: int|
                0 <= j < k ==> (#[trigger] out@[j])@ == traffic_shown(buckets@[j], max_total),
        decreases buckets@.len() - k,
    {
        let b = buckets[k];
        let total: u64 = b.upload.saturating_add(b.download);
        out.push(
            TrafficRow {
                minute: format_timestamp(b.start_ms),
                upload_bytes: format_bytes(b.upload),
                download_bytes: format_bytes(b.download),
                total_bytes: format_bytes(total),
                bar_width: relative_meter(total, max_total),
            },
        );
        k = k + 1;
    }
    proof {
        assert(traffic_views(out@) =~= all_traffic_shown(buckets@));
    }
    out
}

/// The minutes of a device that are shown: those of the last day, and of these the last ones.
pub open spec fn recent_minutes(stats: Seq<DeviceMinuteStat>, now_ms: i64) -> Seq<Bucket> {
    let cutoff = crate::num::clamp_i64(now_ms - TRAFFIC_WINDOW_MS);
    let recent = minutes_since(stats, cutoff);
    if recent.len() > TRAFFIC_ROW_LIMIT {
        recent.skip(recent.len() - TRAFFIC_ROW_LIMIT)
    } else {
        recent
    }
}

/// The minutes of a device from a time on, in order.
pub open spec fn minutes_since(stats: Seq<DeviceMinuteStat>, cutoff: i64) -> Seq<Bucket>
    decreases stats.len(),
{
    if stats.len() == 0 {
        seq![]
    } else {
        let before = minutes_since(stats.drop_last(), cutoff);
        let s = stats.last();
        if s.minute_ms >= cutoff {
            before.push(
                Bucket {
                    start_ms: s.minute_ms,
                    upload: s.upload_bytes,
                    download: s.download_bytes,
                },
            )
        } else {
            before
        }
    }
}

/// Prepares the traffic of a device for a page.
pub fn build_traffic_rows(stats: &Vec<DeviceMinuteStat>, now_ms: i64) -> (r: Vec<TrafficRow>)
    ensures
        traffic_views(r@) == all_traffic_shown(recent_minutes(stats@, now_ms)),
{
    let cutoff: i64 = saturating_sub_i64(now_ms, TRAFFIC_WINDOW_MS);
    let mut recent: Vec<Bucket> = Vec::new();
    let mut i: usize = 0;
    while i < stats.len()
        invariant
            i <= stats@.len(),
            recent@ == minutes_since(stats@.take(i as int), cutoff),
        decreases stats@.len() - i,
    {
        proof {
            assert(stats@.take(i + 1).drop_last() =~= stats@.take(i as int));
            assert(stats@.take(i + 1).last() == stats@[i as int]);
        }
        if stats[i].minute_ms >= cutoff {
            recent.push(
                Bucket {
                    start_ms: stats[i].minute_ms,
                    upload: stats[i].upload_bytes,
                    download: stats[i].download_bytes,
                },
            );
        }
        i = i + 1;
    }
    proof {
        assert(stats@.take(i as int) =~= stats@);
    }
    if recent.len() > TRAFFIC_ROW_LIMIT {
        let ghost all = recent@;
        let shown = recent.split_off(recent.len() - TRAFFIC_ROW_LIMIT);
        proof {
            assert(shown@ =~= all.skip(all.len() - TRAFFIC_ROW_LIMIT));
        }
        traffic_rows(&shown)
    } else {
        traffic_rows(&recent)
    }
}

/// The span of time in which a minute lies begins here.
pub open spec fn span_start(minute_ms: i64, window: DomainTrendWindow) -> int {
    minute_ms - minute_ms as int % window.span_ms() as int
}

/// Every minute that is shown lies in a span whose beginning can be told. Only the first span,
/// which is cut off by the limit of the type, has none.
pub open spec fn spans_fit(
    stats: Seq<DomainMinuteStat>,
    window: DomainTrendWindow,
    now_ms: i64,
) -> bool {
    forall|k: int|
        0 <= k < stats.len() && stats[k].minute_ms >= crate::num::clamp_i64(
            now_ms - window.length_ms(),
        ) ==> span_start(#[trigger] stats[k].minute_ms, window) >= i64::MIN
}

/// Tells whether every minute that is shown lies in a span whose beginning can be told.
pub fn have_spans(stats: &Vec<DomainMinuteStat>, window: DomainTrendWindow, now_ms: i64) -> (r:
    bool)
    ensures
        r == spans_fit(stats@, window, now_ms),
{
    let cutoff: i64 = saturating_sub_i64(now_ms, window.duration_ms());
    let bucket_ms: i64 = window.bucket_ms();
    let mut i: usize = 0;
    while i < stats.len()
        invariant
            i <= stats@.len(),
            cutoff == crate::num::clamp_i64(now_ms - window.length_ms()),
            bucket_ms == window.span_ms(),
            forall|k: int|
                0 <= k < i && stats@[k].minute_ms >= cutoff ==> span_start(
                    #[trigger] stats@[k].minute_ms,
                    window,
                ) >= i64::MIN,
        decreases stats@.len() - i,
    {
        let minute_ms: i64 = stats[i].minute_ms;
        let into: i64 = crate::num::rem_euclid_i64(minute_ms, bucket_ms);
        if minute_ms >= cutoff && (minute_ms as i128) - (into as i128) < i64::MIN as i128 {
            proof {
                assert(span_start(stats@[i as int].minute_ms, window) < i64::MIN);
            }
            return false;
        }
        i = i + 1;
    }
    true
}

/// The minute is shown and lies in the span that begins at `start`.
pub open spec fn in_span(
    s: DomainMinuteStat,
    start: int,
    window: DomainTrendWindow,
    cutoff: i64,
) -> bool {
    s.minute_ms >= cutoff && span_start(s.minute_ms, window) == start
}

/// The traffic with a domain in a span of time, in one direction.
pub open spec fn span_total(
    stats: Seq<DomainMinuteStat>,
    start: int,
    window: DomainTrendWindow,
    cutoff: i64,
    up: bool,
) -> int
    decreases stats.len(),
{
    if stats.len() == 0 {
        0
    } else {
        let before = span_total(stats.drop_last(), start, window, cutoff, up);
        if in_span(stats.last(), start, window, cutoff) {
            before + if up {
                stats.last().upload_bytes
            } else {
                stats.last().download_bytes
            }
        } else {
            before
        }
    }
}

/// Some minute that is shown lies in the span.
pub open spec fn span_used(
    stats: Seq<DomainMinuteStat>,
    start: int,
    window: DomainTrendWindow,
    cutoff: i64,
) -> bool {
    exists|i: int| 0 <= i < stats.len() && in_span(#[trigger] stats[i], start, window, cutoff)
}

/// The spans come in order, each once.
pub open spec fn in_order(buckets: Seq<Bucket>) -> bool {
    forall|i: int, j: int|
        0 <= i < j < buckets.len() ==> (#[trigger] buckets[i]).start_ms < (
        #[trigger] buckets[j]).start_ms
}

/// The list holds the spans in which minutes lie, in order, each with the traffic of its minutes.
pub open spec fn summed_up(
    buckets: Seq<Bucket>,
    stats: Seq<DomainMinuteStat>,
    window: DomainTrendWindow,
    cutoff: i64,
) -> bool {
    &&& in_order(buckets)
    &&& forall|k: int|
        0 <= k < buckets.len() ==> {
            &&& span_used(stats, (#[trigger] buckets[k]).start_ms as int, window, cutoff)
            &&& buckets[k].upload == crate::num::clamp_u64(
                span_total(stats, buckets[k].start_ms as int, window, cutoff, true),
            )
            &&& buckets[k].download == crate::num::clamp_u64(
                span_total(stats, buckets[k].start_ms as int, window, cutoff, false),
            )
        }
    &&& forall|start: int| #[trigger]
        span_used(stats, start, window, cutoff) ==> exists|k: int|
            0 <= k < buckets.len() && (#[trigger] buckets[k]).start_ms == start
}

proof fn lemma_span_step(
    stats: Seq<DomainMinuteStat>,
    i: int,
    start: int,
    window: DomainTrendWindow,
    cutoff: i64,
)
    requires
        0 <= i < stats.len(),
    ensures
        span_used(stats.take(i + 1), start, window, cutoff) == (span_used(
            stats.take(i),
            start,
            window,
            cutoff,
        ) || in_span(stats[i], start, window, cutoff)),
        forall|up: bool| #[trigger]
            span_total(stats.take(i + 1), start, window, cutoff, up) == span_total(
                stats.take(i),
                start,
                window,
                cutoff,
                up,
            ) + if in_span(stats[i], start, window, cutoff) {
                if up {
                    stats[i].upload_bytes as int
                } else {
                    stats[i].download_bytes as int
                }
            } else {
                0
            },
{
    let s = stats.take(i + 1);
    assert(s.drop_last() =~= stats.take(i));
    assert(s.last() == stats[i]);
    if span_used(stats.take(i), start, window, cutoff) {
        let k = choose|k: int|
            0 <= k < i && in_span(#[trigger] stats.take(i)[k], start, window, cutoff);
        assert(in_span(s[k], start, window, cutoff));
    }
    if in_span(stats[i], start, window, cutoff) {
        assert(in_span(s[i], start, window, cutoff));
    }
    if span_used(s, start, window, cutoff) {
        let k = choose|k: int| 0 <= k < s.len() && in_span(#[trigger] s[k], start, window, cutoff);
        if k < i {
            assert(in_span(stats.take(i)[k], start, window, cutoff));
        }
    }
}

proof fn lemma_span_empty(
    stats: Seq<DomainMinuteStat>,
    start: int,
    window: DomainTrendWindow,
    cutoff: i64,
    up: bool,
)
    ensures
        span_total(stats, start, window, cutoff, up) >= 0,
        !span_used(stats, start, window, cutoff) ==> span_total(stats, start, window, cutoff, up)
            == 0,
    decreases stats.len(),
{
    if stats.len() > 0 {
        lemma_span_empty(stats.drop_last(), start, window, cutoff, up);
        assert(stats.take(stats.len() - 1) =~= stats.drop_last());
        assert(stats.take(stats.len() as int) =~= stats);
        lemma_span_step(stats, stats.len() - 1, start, window, cutoff);
    }
}

/// Adds a minute to the span in which it lies.
fn add_minute(
    buckets: &mut Vec<Bucket>,
    stat: &DomainMinuteStat,
    start: i64,
    Ghost(stats): Ghost<Seq<DomainMinuteStat>>,
    Ghost(i): Ghost<int>,
    Ghost(window): Ghost<DomainTrendWindow>,
    Ghost(cutoff): Ghost<i64>,
)
    requires
        0 <= i < stats.len(),
        *stat == stats[i],
        stat.minute_ms >= cutoff,
        start == span_start(stat.minute_ms, window),
        summed_up(old(buckets)@, stats.take(i), window, cutoff),
    ensures
        summed_up(final(buckets)@, stats.take(i + 1), window, cutoff),
{
    let ghost before = buckets@;
    let mut at: usize = 0;
    while at < buckets.len() && buckets[at].start_ms < start
        invariant
            at <= buckets@.len(),
            buckets@ == before,
            forall|j: int| 0 <= j < at ==> (#[trigger] before[j]).start_ms < start,
        decreases buckets@.len() - at,
    {
        at = at + 1;
    }
    if at < buckets.len() && buckets[at].start_ms == start {
        let known = buckets[at];
        buckets.set(
            at,
            Bucket {
                start_ms: start,
                upload: known.upload.saturating_add(stat.upload_bytes),
                download: known.download.saturating_add(stat.download_bytes),
            },
        );
        proof {
            lemma_span_empty(stats.take(i), start as int, window, cutoff, true);
            lemma_span_empty(stats.take(i), start as int, window, cutoff, false);
            lemma_added(before, buckets@, stats, i, window, cutoff, at as int, start);
        }
    } else {
        buckets.insert(
            at,
            Bucket { start_ms: start, upload: stat.upload_bytes, download: stat.download_bytes },
        );
        proof {
            lemma_inserted(before, buckets@, stats, i, window, cutoff, at as int, start);
        }
    }
}

proof fn lemma_added(
    before: Seq<Bucket>,
    after: Seq<Bucket>,
    stats: Seq<DomainMinuteStat>,
    i: int,
    window: DomainTrendWindow,
    cutoff: i64,
    at: int,
    start: i64,
)
    requires
        0 <= i < stats.len(),
        in_span(stats[i], start as int, window, cutoff),
        summed_up(before, stats.take(i), window, cutoff),
        0 <= at < before.len(),
        before[at].start_ms == start,
        after.len() == before.len(),
        forall|k: int| 0 <= k < before.len() && k != at ==> after[k] == before[k],
        after[at].start_ms == start,
        after[at].upload == crate::num::clamp_u64(before[at].upload + stats[i].upload_bytes),
        after[at].download == crate::num::clamp_u64(before[at].download + stats[i].download_bytes),
    ensures
        summed_up(after, stats.take(i + 1), window, cutoff),
{
    let s = stats.take(i + 1);
    assert forall|j: int, k: int|
        0 <= j < k < after.len() implies (#[trigger] after[j]).start_ms < (
    #[trigger] after[k]).start_ms by {
        assert(before[j].start_ms < before[k].start_ms);
    }
    assert forall|k: int| 0 <= k < after.len() implies {
        &&& span_used(s, (#[trigger] after[k]).start_ms as int, window, cutoff)
        &&& after[k].upload == crate::num::clamp_u64(
            span_total(s, after[k].start_ms as int, window, cutoff, true),
        )
        &&& after[k].download == crate::num::clamp_u64(
            span_total(s, after[k].start_ms as int, window, cutoff, false),
        )
    } by {
        let b = before[k];
        lemma_span_step(stats, i, b.start_ms as int, window, cutoff);
        lemma_span_empty(stats.take(i), b.start_ms as int, window, cutoff, true);
        lemma_span_empty(stats.take(i), b.start_ms as int, window, cutoff, false);
        if k < at {
            assert(before[k].start_ms < before[at].start_ms);
        } else if k > at {
            assert(before[at].start_ms < before[k].start_ms);
        }
    }
    assert forall|t: int| #[trigger] span_used(s, t, window, cutoff) implies exists|k: int|
        0 <= k < after.len() && (#[trigger] after[k]).start_ms == t by {
        lemma_span_step(stats, i, t, window, cutoff);
        if t == start {
            assert(after[at].start_ms == t);
        } else {
            assert(span_used(stats.take(i), t, window, cutoff));
            let k = choose|k: int| 0 <= k < before.len() && (#[trigger] before[k]).start_ms == t;
            assert(after[k].start_ms == t);
        }
    }
}

proof fn lemma_inserted(
    before: Seq<Bucket>,
    after: Seq<Bucket>,
    stats: Seq<DomainMinuteStat>,
    i: int,
    window: DomainTrendWindow,
    cutoff: i64,
    at: int,
    start: i64,
)
    requires
        0 <= i < stats.len(),
        in_span(stats[i], start as int, window, cutoff),
        summed_up(before, stats.take(i), window, cutoff),
        0 <= at <= before.len(),
        forall|j: int| 0 <= j < at ==> (#[trigger] before[j]).start_ms < start,
        at < before.len() ==> before[at].start_ms > start,
        after == before.insert(
            at,
            Bucket {
                start_ms: start,
                upload: stats[i].upload_bytes,
                download: stats[i].download_bytes,
            },
        ),
    ensures
        summed_up(after, stats.take(i + 1), window, cutoff),
{
    let s = stats.take(i + 1);
    let old_index = |k: int|
        if k < at {
            k
        } else {
            k - 1
        };
    assert forall|j: int|
        at <= j < before.len() implies (#[trigger] before[j]).start_ms > start by {
        if j > at {
            assert(before[at].start_ms < before[j].start_ms);
        }
    }
    assert forall|j: int, k: int|
        0 <= j < k < after.len() implies (#[trigger] after[j]).start_ms < (
    #[trigger] after[k]).start_ms by {
        if j == at {
            assert(before[k - 1].start_ms > start);
        } else if k == at {
            assert(before[j].start_ms < start);
        } else {
            assert(before[old_index(j)].start_ms < before[old_index(k)].start_ms);
        }
    }
    assert(!span_used(stats.take(i), start as int, window, cutoff)) by {
        if span_used(stats.take(i), start as int, window, cutoff) {
            let k = choose|k: int|
                0 <= k < before.len() && (#[trigger] before[k]).start_ms == start as int;
            assert(before[k].start_ms == start);
        }
    }
    assert forall|k: int| 0 <= k < after.len() implies {
        &&& span_used(s, (#[trigger] after[k]).start_ms as int, window, cutoff)
        &&& after[k].upload == crate::num::clamp_u64(
            span_total(s, after[k].start_ms as int, window, cutoff, true),
        )
        &&& after[k].download == crate::num::clamp_u64(
            span_total(s, after[k].start_ms as int, window, cutoff, false),
        )
    } by {
        let t = after[k].start_ms as int;
        lemma_span_step(stats, i, t, window, cutoff);
        lemma_span_empty(stats.take(i), t, window, cutoff, true);
        lemma_span_empty(stats.take(i), t, window, cutoff, false);
        if k != at {
            assert(after[k] == before[old_index(k)]);
        }
    }
    assert forall|t: int| #[trigger] span_used(s, t, window, cutoff) implies exists|k: int|
        0 <= k < after.len() && (#[trigger] after[k]).start_ms == t by {
        lemma_span_step(stats, i, t, window, cutoff);
        if t == start {
            assert(after[at].start_ms == t);
        } else {
            assert(span_used(stats.take(i), t, window, cutoff));
            let k = choose|k: int| 0 <= k < before.len() && (#[trigger] before[k]).start_ms == t;
            if k < at {
                assert(after[k].start_ms == t);
            } else {
                assert(after[k + 1].start_ms == t);
            }
        }
    }
}

/// Sums up the traffic with a domain by spans of time.
pub fn collect_buckets(
    stats: &Vec<DomainMinuteStat>,
    window: DomainTrendWindow,
    now_ms: i64,
) -> (r: Vec<Bucket>)
    requires
        spans_fit(stats@, window, now_ms),
    ensures
        summed_up(r@, stats@, window, crate::num::clamp_i64(now_ms - window.length_ms())),
{
    let cutoff: i64 = saturating_sub_i64(now_ms, window.duration_ms());
    let bucket_ms: i64 = window.bucket_ms();
    let mut buckets: Vec<Bucket> = Vec::new();
    let mut i: usize = 0;
    proof {
        assert(stats@.take(0) =~= Seq::<DomainMinuteStat>::empty());
    }
    while i < stats.len()
        invariant
            i <= stats@.len(),
            cutoff == crate::num::clamp_i64(now_ms - window.length_ms()),
            spans_fit(stats@, window, now_ms),
            bucket_ms == window.span_ms(),
            summed_up(buckets@, stats@.take(i as int), window, cutoff),
        decreases stats@.len() - i,
    {
        let stat = &stats[i];
        if stat.minute_ms >= cutoff {
            proof {
                assert(span_start(stats@[i as int].minute_ms, window) >= i64::MIN);
            }
            let start: i64 = stat.minute_ms - crate::num::rem_euclid_i64(stat.minute_ms, bucket_ms);
            add_minute(
                &mut buckets,
                stat,
                start,
                Ghost(stats@),
                Ghost(i as int),
                Ghost(window),
                Ghost(cutoff),
            );
        } else {
            proof {
                lemma_skipped(buckets@, stats@, i as int, window, cutoff);
            }
        }
        i = i + 1;
    }
    proof {
        assert(stats@.take(i as int) =~= stats@);
    }
    buckets
}

proof fn lemma_skipped(
    buckets: Seq<Bucket>,
    stats: Seq<DomainMinuteStat>,
    i: int,
    window: DomainTrendWindow,
    cutoff: i64,
)
    requires
        0 <= i < stats.len(),
        stats[i].minute_ms < cutoff,
        summed_up(buckets, stats.take(i), window, cutoff),
    ensures
        summed_up(buckets, stats.take(i + 1), window, cutoff),
{
    let s = stats.take(i + 1);
    assert forall|k: int| 0 <= k < buckets.len() implies {
        &&& span_used(s, (#[trigger] buckets[k]).start_ms as int, window, cutoff)
        &&& buckets[k].upload == crate::num::clamp_u64(
            span_total(s, buckets[k].start_ms as int, window, cutoff, true),
        )
        &&& buckets[k].download == crate::num::clamp_u64(
            span_total(s, buckets[k].start_ms as int, window, cutoff, false),
        )
    } by {
        lemma_span_step(stats, i, buckets[k].start_ms as int, window, cutoff);
    }
    assert forall|t: int| #[trigger] span_used(s, t, window, cutoff) implies exists|k: int|
        0 <= k < buckets.len() && (#[trigger] buckets[k]).start_ms == t by {
        lemma_span_step(stats, i, t, window, cutoff);
        assert(span_used(stats.take(i), t, window, cutoff));
    }
}

/// Prepares the traffic with a domain for a page.
pub fn build_domain_traffic_rows_at(
    stats: &Vec<DomainMinuteStat>,
    window: DomainTrendWindow,
    now_ms: i64,
) -> (r: Vec<TrafficRow>)
    requires
        spans_fit(stats@, window, now_ms),
    ensures
        exists|buckets: Seq<Bucket>|
            summed_up(
                buckets,
                stats@,
                window,
                crate::num::clamp_i64(now_ms - window.length_ms()),
            ) && traffic_views(r@) == #[trigger] all_traffic_shown(buckets),
{
    let buckets = collect_buckets(stats, window, now_ms);
    traffic_rows(&buckets)
}

/// There is one way only to sum up minutes by spans of time.
pub proof fn trend_is_determined(
    a: Seq<Bucket>,
    b: Seq<Bucket>,
    stats: Seq<DomainMinuteStat>,
    window: DomainTrendWindow,
    cutoff: i64,
)
    requires
        summed_up(a, stats, window, cutoff),
        summed_up(b, stats, window, cutoff),
    ensures
        a == b,
{
    lemma_same_starts(a, b, stats, window, cutoff, a.len() as int);
    lemma_same_starts(b, a, stats, window, cutoff, b.len() as int);
    assert(a.len() == b.len());
    assert forall|k: int| 0 <= k < a.len() implies a[k] == b[k] by {
        assert(a[k].start_ms == b[k].start_ms);
    }
    assert(a =~= b);
}

proof fn lemma_same_starts(
    a: Seq<Bucket>,
    b: Seq<Bucket>,
    stats: Seq<DomainMinuteStat>,
    window: DomainTrendWindow,
    cutoff: i64,
    n: int,
)
    requires
        summed_up(a, stats, window, cutoff),
        summed_up(b, stats, window, cutoff),
        0 <= n <= a.len(),
    ensures
        n <= b.len(),
        forall|k: int| 0 <= k < n ==> (#[trigger] a[k]).start_ms == b[k].start_ms,
    decreases n,
{
    if n > 0 {
        lemma_same_starts(a, b, stats, window, cutoff, n - 1);
        let t = a[n - 1].start_ms as int;
        assert(span_used(stats, t, window, cutoff));
        let j = choose|j: int| 0 <= j < b.len() && (#[trigger] b[j]).start_ms == t;
        if j < n - 1 {
            assert(a[j].start_ms == b[j].start_ms);
            assert(a[j].start_ms < a[n - 1].start_ms);
        }
        if j > n - 1 {
            let u = b[n - 1].start_ms as int;
            assert(span_used(stats, u, window, cutoff));
            let i = choose|i: int| 0 <= i < a.len() && (#[trigger] a[i]).start_ms == u;
            assert(b[n - 1].start_ms < b[j].start_ms);
            if i < n - 1 {
                assert(a[i].start_ms == b[i].start_ms);
                assert(b[i].start_ms < b[n - 1].start_ms);
            } else if i > n - 1 {
                assert(a[n - 1].start_ms < a[i].start_ms);
            }
        }
    }
}

/// Where the traffic with a domain is shown.
pub open spec fn trend_link(
    mac: Seq<char>,
    domain: Seq<char>,
    window: DomainTrendWindow,
) -> Seq<char> {
    "/devices/"@ + mac + "?domain="@ + crate::format::encoded(vstd::utf8::encode_utf8(domain))
        + "&domain_window="@ + window.text()
}

/// Makes the link to the traffic with a domain.
pub fn domain_trend_href(mac_address: &str, domain: &str, window: DomainTrendWindow) -> (r: String)
    ensures
        r@ == trend_link(mac_address@, domain@, window),
{
    let mut out = "/devices/".to_owned();
    out.append(mac_address);
    out.append("?domain=");
    out.append(percent_encode_component(domain).as_str());
    out.append("&domain_window=");
    out.append(window.query_value());
    out
}

/// A domain as a page shows it.
pub open spec fn domain_shown(
    mac: Seq<char>,
    selected: Option<Seq<char>>,
    d: crate::domain::DomainTrafficSummaryView,
) -> DomainRowView {
    DomainRowView {
        domain: d.domain,
        trend_href: trend_link(mac, d.domain, DomainTrendWindow::Hours24),
        selected: selected == Some(d.domain),
        upload_bytes: crate::format::bytes_text(d.upload_bytes),
        download_bytes: crate::format::bytes_text(d.download_bytes),
        total_bytes: crate::format::bytes_text(d.total_bytes),
        source: d.source.text(),
        confidence: d.confidence.text(),
    }
}

/// Prepares a domain for a page.
pub fn domain_row(
    mac_address: &str,
    selected_domain: Option<&str>,
    domain: &DomainTrafficSummary,
) -> (r: DomainRow)
    ensures
        r@ == domain_shown(
            mac_address@,
            crate::storage::opt_str_view(selected_domain),
            domain@,
        ),
{
    let selected = match selected_domain {
        Some(selected) => str_eq(selected, domain.domain.as_str()),
        None => false,
    };
    DomainRow {
        domain: domain.domain.clone(),
        trend_href: domain_trend_href(
            mac_address,
            domain.domain.as_str(),
            DomainTrendWindow::Hours24,
        ),
        selected,
        upload_bytes: format_bytes(domain.upload_bytes),
        download_bytes: format_bytes(domain.download_bytes),
        total_bytes: format_bytes(domain.total_bytes),
        source: domain.source.as_str().to_owned(),
        confidence: domain.confidence.as_str().to_owned(),
    }
}

/// An address with a port.
pub open spec fn endpoint_text(ip: Seq<char>, port: u16) -> Seq<char> {
    ip + ":"@ + crate::text::decimal(port as nat)
}

fn endpoint(ip: &str, port: u16) -> (r: String)
    ensures
        r@ == endpoint_text(ip@, port),
{
    let mut out = ip.to_owned();
    out.append(":");
    push_decimal(&mut out, port as u64);
    out
}

/// A flow as a page shows it.
pub open spec fn flow_shown(f: crate::domain::FlowView) -> FlowRowView {
    FlowRowView {
        last_seen: crate::format::timestamp_text(f.last_seen),
        protocol: f.protocol,
        client_endpoint: endpoint_text(f.client_ip, f.client_port),
        destination_endpoint: endpoint_text(f.destination_ip, f.destination_port),
        nat_mapping: match (
            f.nat_source_ip,
            f.nat_source_port,
            f.nat_destination_ip,
            f.nat_destination_port,
        ) {
            (
                Some(source_ip),
                Some(source_port),
                Some(destination_ip),
                Some(destination_port),
            ) => endpoint_text(source_ip, source_port) + " → "@ + endpoint_text(
                destination_ip,
                destination_port,
            ),
            _ => "未关联"@,
        },
        upload_bytes: crate::format::bytes_text(f.upload_bytes),
        download_bytes: crate::format::bytes_text(f.download_bytes),
        packet_count: crate::text::decimal(f.packet_count as nat),
        domain: match f.domain {
            Some(a) => a.domain,
            None => "未知"@,
        },
        source: match f.domain {
            Some(a) => a.source.text(),
            None => "unknown"@,
        },
        confidence: match f.domain {
            Some(a) => a.confidence.text(),
            None => "unknown"@,
        },
        connection_state: f.connection_state.text(),
    }
}

/// Prepares a flow for a page.
pub fn flow_row(flow: &Flow) -> (r: FlowRow)
    ensures
        r@ == flow_shown(flow@),
{
    let nat_mapping = match (
        &flow.nat_source_ip,
        flow.nat_source_port,
        &flow.nat_destination_ip,
        flow.nat_destination_port,
    ) {
        (Some(source_ip), Some(source_port), Some(destination_ip), Some(destination_port)) => {
            let mut out = endpoint(source_ip.as_str(), source_port);
            out.append(" → ");
            out.append(endpoint(destination_ip.as_str(), destination_port).as_str());
            out
        },
        _ => "未关联".to_owned(),
    };
    let (domain, source, confidence) = match &flow.domain {
        Some(a) => (
            a.domain.clone(),
            a.source.as_str().to_owned(),
            a.confidence.as_str().to_owned(),
        ),
        None => ("未知".to_owned(), "unknown".to_owned(), "unknown".to_owned()),
    };
    FlowRow {
        last_seen: format_timestamp(flow.last_seen),
        protocol: flow.protocol.clone(),
        client_endpoint: endpoint(flow.client_ip.as_str(), flow.client_port),
        destination_endpoint: endpoint(flow.destination_ip.as_str(), flow.destination_port),
        nat_mapping,
        upload_bytes: format_bytes(flow.upload_bytes),
        download_bytes: format_bytes(flow.download_bytes),
        packet_count: decimal_string(flow.packet_count),
        domain,
        source,
        confidence,
        connection_state: flow.connection_state.as_str().to_owned(),
    }
}

} // verus!
