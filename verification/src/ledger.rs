//! A model of what is stored, and what each change does to it.
//!
//! Tables are sequences of rows. Byte amounts are mathematical integers.
use vstd::prelude::*;

use crate::domain::{AttributionView, DeviceView, DomainConfidence, DomainSource, FlowView};
use crate::storage::StatementView;

verus! {

/// Traffic of a device in a minute.
#[verifier::ext_equal]
pub struct DeviceMinuteRow {
    pub mac: Seq<char>,
    pub minute_ms: i64,
    pub upload: int,
    pub download: int,
}

/// Traffic of a device with a domain in a minute.
#[verifier::ext_equal]
pub struct DomainMinuteRow {
    pub mac: Seq<char>,
    pub domain: Seq<char>,
    pub minute_ms: i64,
    pub upload: int,
    pub download: int,
    pub source: DomainSource,
    pub confidence: DomainConfidence,
}

/// What a flow has contributed to a minute.
#[verifier::ext_equal]
pub struct LedgerRow {
    pub flow_id: Seq<char>,
    pub mac: Seq<char>,
    pub minute_ms: i64,
    pub upload: int,
    pub download: int,
    pub domain: Option<AttributionView>,
}

/// Everything that is stored of the observations.
#[verifier::ext_equal]
pub struct Database {
    pub devices: Seq<DeviceView>,
    pub flows: Seq<FlowView>,
    pub device_minutes: Seq<DeviceMinuteRow>,
    pub domain_minutes: Seq<DomainMinuteRow>,
    pub ledger: Seq<LedgerRow>,
}

/// The device is known.
pub open spec fn knows_device(devices: Seq<DeviceView>, mac: Seq<char>) -> bool {
    exists|i: int| 0 <= i < devices.len() && (#[trigger] devices[i]).mac_address == mac
}

/// The flow is stored.
pub open spec fn knows_flow(flows: Seq<FlowView>, id: Seq<char>) -> bool {
    exists|i: int| 0 <= i < flows.len() && (#[trigger] flows[i]).flow_id == id
}

/// What was there before, unless something else is given.
pub open spec fn coalesce<T>(given: Option<T>, before: Option<T>) -> Option<T> {
    if given is Some {
        given
    } else {
        before
    }
}

/// The devices after one was noted.
pub open spec fn device_noted(
    devices: Seq<DeviceView>,
    mac: Seq<char>,
    name: Option<Seq<char>>,
    ip: Option<Seq<char>>,
) -> Seq<DeviceView> {
    if knows_device(devices, mac) {
        devices.map_values(
            |d: DeviceView|
                if d.mac_address == mac {
                    DeviceView {
                        mac_address: mac,
                        display_name: coalesce(name, d.display_name),
                        current_ip: ip,
                    }
                } else {
                    d
                },
        )
    } else {
        devices.push(DeviceView { mac_address: mac, display_name: name, current_ip: ip })
    }
}

/// A stored flow after a later snapshot: identity, times of birth and addresses stay, a NAT mapping
/// that is known stays known.
pub open spec fn merged(before: FlowView, f: FlowView) -> FlowView {
    FlowView {
        last_seen: f.last_seen,
        upload_bytes: f.upload_bytes,
        download_bytes: f.download_bytes,
        packet_count: f.packet_count,
        nat_source_ip: coalesce(f.nat_source_ip, before.nat_source_ip),
        nat_source_port: coalesce(f.nat_source_port, before.nat_source_port),
        nat_destination_ip: coalesce(f.nat_destination_ip, before.nat_destination_ip),
        nat_destination_port: coalesce(f.nat_destination_port, before.nat_destination_port),
        domain: f.domain,
        connection_state: f.connection_state,
        ..before
    }
}

/// The flows after a snapshot of one was stored.
pub open spec fn flow_noted(flows: Seq<FlowView>, f: FlowView) -> Seq<FlowView> {
    if knows_flow(flows, f.flow_id) {
        flows.map_values(
            |g: FlowView|
                if g.flow_id == f.flow_id {
                    merged(g, f)
                } else {
                    g
                },
        )
    } else {
        flows.push(f)
    }
}

/// The row is that of the device in the minute.
pub open spec fn is_device_minute(r: DeviceMinuteRow, mac: Seq<char>, minute: i64) -> bool {
    r.mac == mac && r.minute_ms == minute
}

/// The row is that of the device with the domain in the minute.
pub open spec fn is_domain_minute(
    r: DomainMinuteRow,
    mac: Seq<char>,
    domain: Seq<char>,
    minute: i64,
) -> bool {
    r.mac == mac && r.domain == domain && r.minute_ms == minute
}

/// The row is that of the flow in the minute.
pub open spec fn is_entry(r: LedgerRow, id: Seq<char>, minute: i64) -> bool {
    r.flow_id == id && r.minute_ms == minute
}

/// Device traffic after an increase.
pub open spec fn device_minute_added(
    rows: Seq<DeviceMinuteRow>,
    mac: Seq<char>,
    minute: i64,
    upload: int,
    download: int,
) -> Seq<DeviceMinuteRow> {
    if exists|i: int| 0 <= i < rows.len() && is_device_minute(#[trigger] rows[i], mac, minute) {
        rows.map_values(
            |r: DeviceMinuteRow|
                if is_device_minute(r, mac, minute) {
                    DeviceMinuteRow {
                        upload: r.upload + upload,
                        download: r.download + download,
                        ..r
                    }
                } else {
                    r
                },
        )
    } else {
        rows.push(DeviceMinuteRow { mac, minute_ms: minute, upload, download })
    }
}

/// The domain has traffic in the minute.
pub open spec fn has_domain_minute(
    rows: Seq<DomainMinuteRow>,
    mac: Seq<char>,
    domain: Seq<char>,
    minute: i64,
) -> bool {
    exists|i: int| 0 <= i < rows.len() && is_domain_minute(#[trigger] rows[i], mac, domain, minute)
}

/// A domain's row after an increase.
pub open spec fn row_added(
    r: DomainMinuteRow,
    a: AttributionView,
    upload: int,
    download: int,
) -> DomainMinuteRow {
    DomainMinuteRow {
        upload: r.upload + upload,
        download: r.download + download,
        source: a.source,
        confidence: a.confidence,
        ..r
    }
}

/// Domain traffic after an increase.
pub open spec fn domain_minute_added(
    rows: Seq<DomainMinuteRow>,
    mac: Seq<char>,
    a: AttributionView,
    minute: i64,
    upload: int,
    download: int,
) -> Seq<DomainMinuteRow> {
    if has_domain_minute(rows, mac, a.domain, minute) {
        rows.map_values(
            |r: DomainMinuteRow|
                if is_domain_minute(r, mac, a.domain, minute) {
                    row_added(r, a, upload, download)
                } else {
                    r
                },
        )
    } else {
        rows.push(
            DomainMinuteRow {
                mac,
                domain: a.domain,
                minute_ms: minute,
                upload,
                download,
                source: a.source,
                confidence: a.confidence,
            },
        )
    }
}

/// The domain's minute holds at least these amounts.
pub open spec fn can_subtract(
    rows: Seq<DomainMinuteRow>,
    mac: Seq<char>,
    domain: Seq<char>,
    minute: i64,
    upload: int,
    download: int,
) -> bool {
    exists|i: int|
        0 <= i < rows.len() && is_domain_minute(#[trigger] rows[i], mac, domain, minute)
            && rows[i].upload >= upload && rows[i].download >= download
}

/// Domain traffic after a decrease, with a minute in which nothing is left gone.
pub open spec fn domain_minute_subtracted(
    rows: Seq<DomainMinuteRow>,
    mac: Seq<char>,
    domain: Seq<char>,
    minute: i64,
    upload: int,
    download: int,
) -> Seq<DomainMinuteRow> {
    rows.map_values(
        |r: DomainMinuteRow|
            if is_domain_minute(r, mac, domain, minute) && r.upload >= upload && r.download
                >= download {
                DomainMinuteRow {
                    upload: r.upload - upload,
                    download: r.download - download,
                    ..r
                }
            } else {
                r
            },
    ).filter(
        |r: DomainMinuteRow|
            !(is_domain_minute(r, mac, domain, minute) && r.upload == 0 && r.download == 0),
    )
}

/// Domain traffic after what a minute says of its attribution was replaced.
pub open spec fn domain_minute_marked(
    rows: Seq<DomainMinuteRow>,
    mac: Seq<char>,
    a: AttributionView,
    minute: i64,
) -> Seq<DomainMinuteRow> {
    rows.map_values(
        |r: DomainMinuteRow|
            if is_domain_minute(r, mac, a.domain, minute) {
                row_added(r, a, 0, 0)
            } else {
                r
            },
    )
}

/// The flow has contributed to the minute.
pub open spec fn has_entry(rows: Seq<LedgerRow>, id: Seq<char>, minute: i64) -> bool {
    exists|i: int| 0 <= i < rows.len() && is_entry(#[trigger] rows[i], id, minute)
}

/// The ledger after a contribution. The device of a row that is there already stays.
pub open spec fn entry_added(rows: Seq<LedgerRow>, e: LedgerRow) -> Seq<LedgerRow> {
    if has_entry(rows, e.flow_id, e.minute_ms) {
        rows.map_values(
            |r: LedgerRow|
                if is_entry(r, e.flow_id, e.minute_ms) {
                    LedgerRow {
                        upload: r.upload + e.upload,
                        download: r.download + e.download,
                        domain: e.domain,
                        ..r
                    }
                } else {
                    r
                },
        )
    } else {
        rows.push(e)
    }
}

/// The ledger after everything of a flow was given an attribution.
pub open spec fn entries_marked(
    rows: Seq<LedgerRow>,
    id: Seq<char>,
    a: AttributionView,
) -> Seq<LedgerRow> {
    rows.map_values(
        |r: LedgerRow|
            if r.flow_id == id {
                LedgerRow { domain: Some(a), ..r }
            } else {
                r
            },
    )
}

/// The row's attribution is to the domain, and its device is the given one where one is given.
pub open spec fn concerns(
    mac: Option<Seq<char>>,
    domain: Seq<char>,
    row_mac: Seq<char>,
    row_domain: Option<AttributionView>,
) -> bool {
    (mac is None || mac->0 == row_mac) && row_domain is Some && row_domain->0.domain == domain
}

/// The flows without some of them, and the ledger without their entries.
pub open spec fn flows_dropped(db: Database, drop: spec_fn(FlowView) -> bool) -> Database {
    let flows = db.flows.filter(|f: FlowView| !drop(f));
    Database {
        flows,
        ledger: db.ledger.filter(|r: LedgerRow| knows_flow(flows, r.flow_id)),
        ..db
    }
}

/// The flow overlaps the range of time.
pub open spec fn overlaps(f: FlowView, from_ms: i64, to_ms: i64) -> bool {
    f.first_seen < to_ms && f.last_seen >= from_ms
}

/// What is stored after a change; `None` where the change is refused.
pub open spec fn applied(db: Database, s: StatementView) -> Option<Database> {
    match s {
        StatementView::UpsertDevice { mac_address, display_name, current_ip } => Some(
            Database {
                devices: device_noted(db.devices, mac_address, display_name, current_ip),
                ..db
            },
        ),
        StatementView::UpsertFlow { flow } => if knows_flow(db.flows, flow.flow_id)
            || knows_device(db.devices, flow.client_mac) {
            Some(Database { flows: flow_noted(db.flows, flow), ..db })
        } else {
            None
        },
        StatementView::AddDeviceMinute { mac_address, minute_ms, upload_bytes, download_bytes } =>
        Some(
            Database {
                device_minutes: device_minute_added(
                    db.device_minutes,
                    mac_address,
                    minute_ms,
                    upload_bytes as int,
                    download_bytes as int,
                ),
                ..db
            },
        ),
        StatementView::AddDomainMinute {
            mac_address,
            attribution,
            minute_ms,
            upload_bytes,
            download_bytes,
        } => Some(
            Database {
                domain_minutes: domain_minute_added(
                    db.domain_minutes,
                    mac_address,
                    attribution,
                    minute_ms,
                    upload_bytes as int,
                    download_bytes as int,
                ),
                ..db
            },
        ),
        StatementView::SubtractDomainMinute {
            mac_address,
            domain,
            minute_ms,
            upload_bytes,
            download_bytes,
        } => if can_subtract(
            db.domain_minutes,
            mac_address,
            domain,
            minute_ms,
            upload_bytes as int,
            download_bytes as int,
        ) {
            Some(
                Database {
                    domain_minutes: domain_minute_subtracted(
                        db.domain_minutes,
                        mac_address,
                        domain,
                        minute_ms,
                        upload_bytes as int,
                        download_bytes as int,
                    ),
                    ..db
                },
            )
        } else {
            None
        },
        StatementView::MarkDomainMinute { mac_address, attribution, minute_ms } => Some(
            Database {
                domain_minutes: domain_minute_marked(
                    db.domain_minutes,
                    mac_address,
                    attribution,
                    minute_ms,
                ),
                ..db
            },
        ),
        StatementView::AddContribution {
            flow_id,
            mac_address,
            minute_ms,
            upload_bytes,
            download_bytes,
            attribution,
        } => if knows_flow(db.flows, flow_id) {
            Some(
                Database {
                    ledger: entry_added(
                        db.ledger,
                        LedgerRow {
                            flow_id,
                            mac: mac_address,
                            minute_ms,
                            upload: upload_bytes as int,
                            download: download_bytes as int,
                            domain: attribution,
                        },
                    ),
                    ..db
                },
            )
        } else {
            None
        },
        StatementView::MarkContributions { flow_id, attribution } => Some(
            Database { ledger: entries_marked(db.ledger, flow_id, attribution), ..db },
        ),
        StatementView::SetFlowDomain { flow_id, attribution } => Some(
            Database {
                flows: db.flows.map_values(
                    |f: FlowView|
                        if f.flow_id == flow_id {
                            FlowView { domain: Some(attribution), ..f }
                        } else {
                            f
                        },
                ),
                ..db
            },
        ),
        StatementView::DeleteDeviceMinutesOf { mac_address } => Some(
            Database {
                device_minutes: db.device_minutes.filter(
                    |r: DeviceMinuteRow| r.mac != mac_address,
                ),
                ..db
            },
        ),
        StatementView::DeleteDomainMinutesOf { mac_address } => Some(
            Database {
                domain_minutes: db.domain_minutes.filter(
                    |r: DomainMinuteRow| r.mac != mac_address,
                ),
                ..db
            },
        ),
        StatementView::DeleteFlowsOf { mac_address } => Some(
            flows_dropped(db, |f: FlowView| f.client_mac == mac_address),
        ),
        StatementView::DeleteDevice { mac_address } => if exists|i: int|
            0 <= i < db.flows.len() && (#[trigger] db.flows[i]).client_mac == mac_address {
            None
        } else {
            Some(
                Database {
                    devices: db.devices.filter(|d: DeviceView| d.mac_address != mac_address),
                    ..db
                },
            )
        },
        StatementView::DeleteContributionsTo { mac_address, domain } => Some(
            Database {
                ledger: db.ledger.filter(
                    |r: LedgerRow| !concerns(mac_address, domain, r.mac, r.domain),
                ),
                ..db
            },
        ),
        StatementView::DeleteDomainMinutesFor { mac_address, domain } => Some(
            Database {
                domain_minutes: db.domain_minutes.filter(
                    |r: DomainMinuteRow|
                        !((mac_address is None || mac_address->0 == r.mac) && r.domain == domain),
                ),
                ..db
            },
        ),
        StatementView::RedactFlows { mac_address, domain } => Some(
            Database {
                flows: db.flows.map_values(
                    |f: FlowView|
                        if concerns(mac_address, domain, f.client_mac, f.domain) {
                            FlowView { domain: None, ..f }
                        } else {
                            f
                        },
                ),
                ..db
            },
        ),
        StatementView::DeleteDeviceMinutesIn { from_ms, to_ms } => Some(
            Database {
                device_minutes: db.device_minutes.filter(
                    |r: DeviceMinuteRow| !(from_ms <= r.minute_ms < to_ms),
                ),
                ..db
            },
        ),
        StatementView::DeleteDomainMinutesIn { from_ms, to_ms } => Some(
            Database {
                domain_minutes: db.domain_minutes.filter(
                    |r: DomainMinuteRow| !(from_ms <= r.minute_ms < to_ms),
                ),
                ..db
            },
        ),
        StatementView::DeleteContributionsIn { from_ms, to_ms } => Some(
            Database {
                ledger: db.ledger.filter(|r: LedgerRow| !(from_ms <= r.minute_ms < to_ms)),
                ..db
            },
        ),
        StatementView::DeleteFlowsIn { from_ms, to_ms } => Some(
            flows_dropped(db, |f: FlowView| overlaps(f, from_ms, to_ms)),
        ),
        StatementView::DeleteFlowsBefore { cutoff_ms } => Some(
            flows_dropped(db, |f: FlowView| f.last_seen < cutoff_ms),
        ),
        StatementView::DeleteDeviceMinutesBefore { cutoff_ms } => Some(
            Database {
                device_minutes: db.device_minutes.filter(
                    |r: DeviceMinuteRow| !(r.minute_ms < cutoff_ms),
                ),
                ..db
            },
        ),
        StatementView::DeleteContributionsBefore { cutoff_ms } => Some(
            Database {
                ledger: db.ledger.filter(|r: LedgerRow| !(r.minute_ms < cutoff_ms)),
                ..db
            },
        ),
        StatementView::DeleteDomainMinutesBefore { cutoff_ms } => Some(
            Database {
                domain_minutes: db.domain_minutes.filter(
                    |r: DomainMinuteRow| !(r.minute_ms < cutoff_ms),
                ),
                ..db
            },
        ),
        StatementView::RenameDevice { mac_address, display_name } => Some(
            Database {
                devices: db.devices.map_values(
                    |d: DeviceView|
                        if d.mac_address == mac_address {
                            DeviceView { display_name, ..d }
                        } else {
                            d
                        },
                ),
                ..db
            },
        ),
    }
}

/// What is stored after a list of changes, in order; `None` where one of them is refused.
pub open spec fn applied_all(db: Database, s: Seq<StatementView>) -> Option<Database>
    decreases s.len(),
{
    if s.len() == 0 {
        Some(db)
    } else {
        match applied_all(db, s.drop_last()) {
            Some(before) => applied(before, s.last()),
            None => None,
        }
    }
}

/// A list of changes takes effect as its parts do one after the other.
pub proof fn lemma_applied_append(db: Database, s: Seq<StatementView>, t: Seq<StatementView>)
    ensures
        applied_all(db, s + t) == match applied_all(db, s) {
            Some(mid) => applied_all(mid, t),
            None => None,
        },
    decreases t.len(),
{
    if t.len() == 0 {
        assert(s + t =~= s);
    } else {
        assert((s + t).drop_last() =~= s + t.drop_last());
        assert((s + t).last() == t.last());
        lemma_applied_append(db, s, t.drop_last());
    }
}

/// A single change.
pub proof fn lemma_applied_one(db: Database, s: StatementView)
    ensures
        applied_all(db, seq![s]) == applied(db, s),
{
    assert(seq![s].drop_last() =~= Seq::<StatementView>::empty());
    assert(applied_all(db, Seq::<StatementView>::empty()) == Some(db));
}

} // verus!
