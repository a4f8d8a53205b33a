//! The schema, the SQL text of each change and query, and what rows mean.
use vstd::prelude::*;
use vstd::string::*;

use crate::domain::{
    ConnectionState, Device, DeviceFlowSummary, DeviceMinuteStat, DomainAttribution,
    DomainMinuteStat, DomainTrafficSummary, Flow, FlowDirection, FlowPageAnchor, FlowPageDirection,
    ResolvedDomainBinding,
};
use crate::sql::{
    int_at, opt_int_at, opt_int_value, opt_port_value, opt_text_at, opt_text_value, text_at,
    text_value, Command, SqlValue, StorageError,
};
use crate::storage::{parse_confidence, parse_source, Statement};
use crate::text::push_decimal_signed;

verus! {

/// Notes a device.
pub const UPSERT_DEVICE: &'static str = r#"INSERT INTO devices (mac_address, display_name, current_ip, updated_at_ms)
VALUES (?1, ?2, ?3, strftime('%s','now') * 1000)
ON CONFLICT(mac_address) DO UPDATE SET
    display_name = COALESCE(excluded.display_name, devices.display_name),
    current_ip = excluded.current_ip,
    updated_at_ms = excluded.updated_at_ms
"#;

/// Stores a flow.
pub const UPSERT_FLOW: &'static str = r#"INSERT INTO flows (
    flow_id, first_seen, last_seen, protocol, direction,
    lan_interface, wan_interface,
    client_mac, client_ip, client_port,
    destination_ip, destination_port,
    nat_source_ip, nat_source_port,
    nat_destination_ip, nat_destination_port,
    upload_bytes, download_bytes, packet_count,
    domain, domain_source, domain_confidence,
    domain_associated_at, domain_expires_at,
    connection_state
) VALUES (
    ?1, ?2, ?3, ?4, ?5, ?6, ?7, ?8, ?9, ?10, ?11, ?12, ?13, ?14, ?15, ?16, ?17, ?18, ?19, ?20,
    ?21, ?22, ?23, ?24, ?25
)
ON CONFLICT(flow_id) DO UPDATE SET
    last_seen = excluded.last_seen,
    upload_bytes = excluded.upload_bytes,
    download_bytes = excluded.download_bytes,
    packet_count = excluded.packet_count,
    nat_source_ip = COALESCE(excluded.nat_source_ip, flows.nat_source_ip),
    nat_source_port = COALESCE(excluded.nat_source_port, flows.nat_source_port),
    nat_destination_ip = COALESCE(excluded.nat_destination_ip, flows.nat_destination_ip),
    nat_destination_port = COALESCE(excluded.nat_destination_port, flows.nat_destination_port),
    domain = excluded.domain,
    domain_source = excluded.domain_source,
    domain_confidence = excluded.domain_confidence,
    domain_associated_at = excluded.domain_associated_at,
    domain_expires_at = excluded.domain_expires_at,
    connection_state = excluded.connection_state
"#;

/// Adds to a device's minute.
pub const ADD_DEVICE_MINUTE: &'static str = r#"INSERT INTO device_minute_stats (mac_address, minute_ms, upload_bytes, download_bytes)
VALUES (?1, ?2, ?3, ?4)
ON CONFLICT(mac_address, minute_ms) DO UPDATE SET
    upload_bytes = upload_bytes + excluded.upload_bytes,
    download_bytes = download_bytes + excluded.download_bytes
"#;

/// Adds to a domain's minute.
pub const ADD_DOMAIN_MINUTE: &'static str = r#"INSERT INTO domain_minute_stats
    (mac_address, domain, minute_ms, upload_bytes, download_bytes, domain_source, confidence)
VALUES (?1, ?2, ?3, ?4, ?5, ?6, ?7)
ON CONFLICT(mac_address, domain, minute_ms) DO UPDATE SET
    upload_bytes = upload_bytes + excluded.upload_bytes,
    download_bytes = download_bytes + excluded.download_bytes,
    domain_source = excluded.domain_source,
    confidence = excluded.confidence
"#;

/// Takes from a domain's minute what is there.
pub const SUBTRACT_DOMAIN_MINUTE: &'static str = r#"UPDATE domain_minute_stats
SET upload_bytes = upload_bytes - ?4,
    download_bytes = download_bytes - ?5
WHERE mac_address = ?1 AND domain = ?2 AND minute_ms = ?3
  AND upload_bytes >= ?4 AND download_bytes >= ?5
"#;

/// Drops a domain's minute in which nothing is left.
pub const DROP_EMPTY_DOMAIN_MINUTE: &'static str = r#"DELETE FROM domain_minute_stats
WHERE mac_address = ?1 AND domain = ?2 AND minute_ms = ?3
  AND upload_bytes = 0 AND download_bytes = 0
"#;

/// Replaces what a domain's minute says of its attribution.
pub const MARK_DOMAIN_MINUTE: &'static str = r#"UPDATE domain_minute_stats
SET domain_source = ?4, confidence = ?5
WHERE mac_address = ?1 AND domain = ?2 AND minute_ms = ?3
"#;

/// Adds to what a flow has contributed to a minute.
pub const ADD_CONTRIBUTION: &'static str = r#"INSERT INTO flow_minute_contributions
    (flow_id, mac_address, minute_ms, upload_bytes, download_bytes,
     domain, domain_source, confidence, associated_at, expires_at)
VALUES (?1, ?2, ?3, ?4, ?5, ?6, ?7, ?8, ?9, ?10)
ON CONFLICT(flow_id, minute_ms) DO UPDATE SET
    upload_bytes = upload_bytes + excluded.upload_bytes,
    download_bytes = download_bytes + excluded.download_bytes,
    domain = excluded.domain,
    domain_source = excluded.domain_source,
    confidence = excluded.confidence,
    associated_at = excluded.associated_at,
    expires_at = excluded.expires_at
"#;

/// Replaces the attribution of what a flow has contributed.
pub const MARK_CONTRIBUTIONS: &'static str = r#"UPDATE flow_minute_contributions
SET domain = ?2, domain_source = ?3, confidence = ?4, associated_at = ?5, expires_at = ?6
WHERE flow_id = ?1
"#;

/// Replaces the attribution of a flow.
pub const SET_FLOW_DOMAIN: &'static str = r#"UPDATE flows
SET domain = ?2, domain_source = ?3, domain_confidence = ?4,
    domain_associated_at = ?5, domain_expires_at = ?6
WHERE flow_id = ?1
"#;

/// Deletes the traffic of a device.
pub const DELETE_DEVICE_MINUTES_OF: &'static str = r#"DELETE FROM device_minute_stats WHERE mac_address = ?1
"#;

/// Deletes the domain traffic of a device.
pub const DELETE_DOMAIN_MINUTES_OF: &'static str = r#"DELETE FROM domain_minute_stats WHERE mac_address = ?1
"#;

/// Deletes the flows of a device.
pub const DELETE_FLOWS_OF: &'static str = r#"DELETE FROM flows WHERE client_mac = ?1
"#;

/// Deletes a device.
pub const DELETE_DEVICE: &'static str = r#"DELETE FROM devices WHERE mac_address = ?1
"#;

/// Deletes what was contributed to a domain.
pub const DELETE_CONTRIBUTIONS_TO: &'static str = r#"DELETE FROM flow_minute_contributions WHERE domain = ?1
"#;

/// Deletes what a device has contributed to a domain.
pub const DELETE_CONTRIBUTIONS_OF_TO: &'static str = r#"DELETE FROM flow_minute_contributions WHERE mac_address = ?1 AND domain = ?2
"#;

/// Deletes the traffic of a domain.
pub const DELETE_DOMAIN_MINUTES_FOR: &'static str = r#"DELETE FROM domain_minute_stats WHERE domain = ?1
"#;

/// Deletes the traffic of a device with a domain.
pub const DELETE_DOMAIN_MINUTES_OF_FOR: &'static str = r#"DELETE FROM domain_minute_stats WHERE mac_address = ?1 AND domain = ?2
"#;

/// Removes the attribution to a domain from flows.
pub const REDACT_FLOWS: &'static str = r#"UPDATE flows
SET domain = NULL, domain_source = NULL, domain_confidence = NULL,
    domain_associated_at = NULL, domain_expires_at = NULL
WHERE domain = ?1
"#;

/// Removes the attribution to a domain from the flows of a device.
pub const REDACT_FLOWS_OF: &'static str = r#"UPDATE flows
SET domain = NULL, domain_source = NULL, domain_confidence = NULL,
    domain_associated_at = NULL, domain_expires_at = NULL
WHERE client_mac = ?1 AND domain = ?2
"#;

/// Deletes device traffic in a range of time.
pub const DELETE_DEVICE_MINUTES_IN: &'static str = r#"DELETE FROM device_minute_stats WHERE minute_ms >= ?1 AND minute_ms < ?2
"#;

/// Deletes domain traffic in a range of time.
pub const DELETE_DOMAIN_MINUTES_IN: &'static str = r#"DELETE FROM domain_minute_stats WHERE minute_ms >= ?1 AND minute_ms < ?2
"#;

/// Deletes what was contributed in a range of time.
pub const DELETE_CONTRIBUTIONS_IN: &'static str = r#"DELETE FROM flow_minute_contributions WHERE minute_ms >= ?1 AND minute_ms < ?2
"#;

/// Deletes the flows that overlap a range of time.
pub const DELETE_FLOWS_IN: &'static str = r#"DELETE FROM flows WHERE first_seen < ?2 AND last_seen >= ?1
"#;

/// Deletes the flows last seen before a time.
pub const DELETE_FLOWS_BEFORE: &'static str = r#"DELETE FROM flows WHERE last_seen < ?1
"#;

/// Deletes device traffic before a time.
pub const DELETE_DEVICE_MINUTES_BEFORE: &'static str = r#"DELETE FROM device_minute_stats WHERE minute_ms < ?1
"#;

/// Deletes what was contributed before a time.
pub const DELETE_CONTRIBUTIONS_BEFORE: &'static str = r#"DELETE FROM flow_minute_contributions WHERE minute_ms < ?1
"#;

/// Deletes domain traffic before a time.
pub const DELETE_DOMAIN_MINUTES_BEFORE: &'static str = r#"DELETE FROM domain_minute_stats WHERE minute_ms < ?1
"#;

/// Replaces the name of a device.
pub const RENAME_DEVICE: &'static str = r#"UPDATE devices
SET display_name = ?1, updated_at_ms = strftime('%s','now') * 1000
WHERE mac_address = ?2
"#;

/// Reads what is stored of a flow and matters for its next snapshot.
pub const SELECT_STORED_STATE: &'static str = r#"SELECT upload_bytes, download_bytes, packet_count, last_seen,
       domain, domain_source, domain_confidence, domain_associated_at, domain_expires_at
FROM flows WHERE flow_id = ?1
"#;

/// Reads what a flow has contributed.
pub const SELECT_CONTRIBUTIONS: &'static str = r#"SELECT minute_ms, upload_bytes, download_bytes,
       domain, domain_source, confidence, associated_at, expires_at
FROM flow_minute_contributions
WHERE flow_id = ?1
"#;

/// Finds the flows that a binding covers.
pub const SELECT_COVERED_FLOWS: &'static str = r#"SELECT flow_id
FROM flows
WHERE client_mac = ?1 AND destination_ip = ?2
  AND last_seen >= ?3 AND first_seen < ?4
"#;

/// Yields a row where a device is known.
pub const SELECT_DEVICE_EXISTS: &'static str = r#"SELECT 1 FROM devices WHERE mac_address = ?1
"#;

/// Counts the flows of a device.
pub const COUNT_FLOWS_OF: &'static str = r#"SELECT COUNT(*) FROM flows WHERE client_mac = ?1
"#;

/// Counts what a device has contributed.
pub const COUNT_CONTRIBUTIONS_OF: &'static str = r#"SELECT COUNT(*) FROM flow_minute_contributions WHERE mac_address = ?1
"#;

/// Counts the flows that overlap a range of time.
pub const COUNT_FLOWS_IN: &'static str = r#"SELECT COUNT(*) FROM flows WHERE first_seen < ?2 AND last_seen >= ?1
"#;

/// Counts what was contributed in a range of time, or by a flow that overlaps it.
pub const COUNT_CONTRIBUTIONS_IN: &'static str = r#"SELECT COUNT(*)
FROM flow_minute_contributions c
WHERE (c.minute_ms >= ?1 AND c.minute_ms < ?2)
   OR EXISTS (
        SELECT 1 FROM flows f
        WHERE f.flow_id = c.flow_id AND first_seen < ?2 AND last_seen >= ?1
   )
"#;

/// Lists the devices.
pub const SELECT_DEVICES: &'static str = r#"SELECT mac_address, display_name, current_ip
FROM devices
ORDER BY mac_address
"#;

/// Finds a device.
pub const SELECT_DEVICE: &'static str = r#"SELECT mac_address, display_name, current_ip
FROM devices
WHERE mac_address = ?1
"#;

/// Lists the latest flows of a device.
pub const SELECT_FLOWS: &'static str = r#"SELECT
    flow_id, first_seen, last_seen, protocol, direction,
    lan_interface, wan_interface,
    client_mac, client_ip, client_port,
    destination_ip, destination_port,
    nat_source_ip, nat_source_port,
    nat_destination_ip, nat_destination_port,
    upload_bytes, download_bytes, packet_count,
    domain, domain_source, domain_confidence,
    domain_associated_at, domain_expires_at,
    connection_state
FROM flows
WHERE client_mac = ?1 AND last_seen >= ?2
ORDER BY last_seen DESC, flow_id DESC LIMIT ?3
"#;

/// Lists the flows of a device before an anchor, the latest first.
pub const SELECT_OLDER_FLOWS: &'static str = r#"SELECT
    flow_id, first_seen, last_seen, protocol, direction,
    lan_interface, wan_interface,
    client_mac, client_ip, client_port,
    destination_ip, destination_port,
    nat_source_ip, nat_source_port,
    nat_destination_ip, nat_destination_port,
    upload_bytes, download_bytes, packet_count,
    domain, domain_source, domain_confidence,
    domain_associated_at, domain_expires_at,
    connection_state
FROM flows
WHERE client_mac = ?1 AND last_seen >= ?2
  AND (last_seen < ?3 OR (last_seen = ?3 AND flow_id < ?4))
ORDER BY last_seen DESC, flow_id DESC LIMIT ?5
"#;

/// Lists the flows of a device after an anchor, the earliest first.
pub const SELECT_NEWER_FLOWS: &'static str = r#"SELECT
    flow_id, first_seen, last_seen, protocol, direction,
    lan_interface, wan_interface,
    client_mac, client_ip, client_port,
    destination_ip, destination_port,
    nat_source_ip, nat_source_port,
    nat_destination_ip, nat_destination_port,
    upload_bytes, download_bytes, packet_count,
    domain, domain_source, domain_confidence,
    domain_associated_at, domain_expires_at,
    connection_state
FROM flows
WHERE client_mac = ?1 AND last_seen >= ?2
  AND (last_seen > ?3 OR (last_seen = ?3 AND flow_id > ?4))
ORDER BY last_seen ASC, flow_id ASC LIMIT ?5
"#;

/// Sums up the recent flows of a device.
pub const SUMMARIZE_FLOWS: &'static str = r#"SELECT COALESCE(SUM(upload_bytes), 0), COALESCE(SUM(download_bytes), 0), COUNT(*), MAX(last_seen)
FROM flows
WHERE client_mac = ?1 AND last_seen >= ?2
"#;

/// Lists the traffic of a device.
pub const SELECT_DEVICE_MINUTES: &'static str = r#"SELECT mac_address, minute_ms, upload_bytes, download_bytes
FROM device_minute_stats
WHERE mac_address = ?1 AND minute_ms >= ?2
ORDER BY minute_ms ASC
"#;

/// Lists the traffic of a device with a domain.
pub const SELECT_DOMAIN_MINUTES: &'static str = r#"SELECT mac_address, domain, minute_ms, upload_bytes, download_bytes, domain_source, confidence
FROM domain_minute_stats
WHERE mac_address = ?1 AND domain = ?2 AND minute_ms >= ?3
ORDER BY minute_ms ASC
"#;

/// Lists the domains of a device by traffic, each with its best confidence and the source that goes
/// with it.
pub const SELECT_DOMAIN_TOP: &'static str = r#"SELECT
    domain,
    SUM(upload_bytes) AS upload_bytes,
    SUM(download_bytes) AS download_bytes,
    SUM(upload_bytes + download_bytes) AS total_bytes,
    CASE MIN(CASE confidence WHEN 'high' THEN 0 WHEN 'low' THEN 1 ELSE 2 END)
        WHEN 0 THEN 'high'
        WHEN 1 THEN 'low'
        ELSE 'unknown'
    END AS confidence,
    (
        SELECT s.domain_source
        FROM domain_minute_stats s
        WHERE s.mac_address = domain_minute_stats.mac_address
          AND s.domain = domain_minute_stats.domain
          AND s.minute_ms >= ?2
        ORDER BY
            CASE s.confidence WHEN 'high' THEN 0 WHEN 'low' THEN 1 ELSE 2 END ASC,
            s.minute_ms DESC
        LIMIT 1
    ) AS domain_source
FROM domain_minute_stats
WHERE mac_address = ?1 AND minute_ms >= ?2
GROUP BY domain
ORDER BY total_bytes DESC
LIMIT ?3
"#;

/// Finds the account that was created first.
pub const SELECT_FIRST_ACCOUNT: &'static str = r#"SELECT username, password_hash
FROM local_accounts
ORDER BY created_at_ms ASC, username ASC
LIMIT 1
"#;

/// Creates an account while there is none.
pub const INSERT_ACCOUNT: &'static str = r#"INSERT INTO local_accounts (username, password_hash, created_at_ms)
SELECT ?1, ?2, strftime('%s','now') * 1000
WHERE NOT EXISTS (SELECT 1 FROM local_accounts)
"#;

/// The columns of an attribution.
pub open spec fn attribution_row(a: Option<crate::domain::AttributionView>) -> Seq<
    crate::sql::SqlView,
> {
    match a {
        Some(x) => seq![
            crate::sql::text_param(x.domain),
            crate::sql::text_param(x.source.text()),
            crate::sql::text_param(x.confidence.text()),
            crate::sql::SqlView::Integer(x.associated_at),
            crate::sql::opt_int_param(x.expires_at),
        ],
        None => seq![
            crate::sql::SqlView::Null,
            crate::sql::SqlView::Null,
            crate::sql::SqlView::Null,
            crate::sql::SqlView::Null,
            crate::sql::SqlView::Null,
        ],
    }
}

/// The columns of a flow.
pub open spec fn flow_row(f: crate::domain::FlowView) -> Seq<crate::sql::SqlView> {
    seq![
        crate::sql::text_param(f.flow_id),
        crate::sql::SqlView::Integer(f.first_seen),
        crate::sql::SqlView::Integer(f.last_seen),
        crate::sql::text_param(f.protocol),
        crate::sql::text_param(f.direction.text()),
        crate::sql::text_param(f.lan_interface),
        crate::sql::text_param(f.wan_interface),
        crate::sql::text_param(f.client_mac),
        crate::sql::text_param(f.client_ip),
        crate::sql::SqlView::Integer(f.client_port as i64),
        crate::sql::text_param(f.destination_ip),
        crate::sql::SqlView::Integer(f.destination_port as i64),
        crate::sql::opt_text_param(f.nat_source_ip),
        crate::sql::opt_port_param(f.nat_source_port),
        crate::sql::opt_text_param(f.nat_destination_ip),
        crate::sql::opt_port_param(f.nat_destination_port),
        crate::sql::SqlView::Integer(f.upload_bytes as i64),
        crate::sql::SqlView::Integer(f.download_bytes as i64),
        crate::sql::SqlView::Integer(f.packet_count as i64),
    ] + attribution_row(f.domain) + seq![crate::sql::text_param(f.connection_state.text())]
}

fn attribution_params(a: &Option<DomainAttribution>) -> (r: Vec<SqlValue>)
    ensures
        crate::sql::row_view(r@) == attribution_row(crate::domain::attribution_view(*a)),
{
    let mut out: Vec<SqlValue> = Vec::new();
    match a {
        Some(x) => {
            out.push(text_value(x.domain.as_str()));
            out.push(text_value(x.source.as_str()));
            out.push(text_value(x.confidence.as_str()));
            out.push(SqlValue::Integer(x.associated_at));
            out.push(opt_int_value(x.expires_at));
        },
        None => {
            out.push(SqlValue::Null);
            out.push(SqlValue::Null);
            out.push(SqlValue::Null);
            out.push(SqlValue::Null);
            out.push(SqlValue::Null);
        },
    }
    proof {
        assert(crate::sql::row_view(out@) =~= attribution_row(
            crate::domain::attribution_view(*a),
        ));
    }
    out
}

fn flow_params(f: &Flow) -> (r: Vec<SqlValue>)
    ensures
        crate::sql::row_view(r@) == flow_row(f@),
{
    let mut out: Vec<SqlValue> = Vec::new();
    out.push(text_value(f.flow_id.as_str()));
    out.push(SqlValue::Integer(f.first_seen));
    out.push(SqlValue::Integer(f.last_seen));
    out.push(text_value(f.protocol.as_str()));
    out.push(text_value(f.direction.as_str()));
    out.push(text_value(f.lan_interface.as_str()));
    out.push(text_value(f.wan_interface.as_str()));
    out.push(text_value(f.client_mac.as_str()));
    out.push(text_value(f.client_ip.as_str()));
    out.push(SqlValue::Integer(f.client_port as i64));
    out.push(text_value(f.destination_ip.as_str()));
    out.push(SqlValue::Integer(f.destination_port as i64));
    out.push(opt_text_value(&f.nat_source_ip));
    out.push(opt_port_value(f.nat_source_port));
    out.push(opt_text_value(&f.nat_destination_ip));
    out.push(opt_port_value(f.nat_destination_port));
    out.push(SqlValue::Integer(f.upload_bytes as i64));
    out.push(SqlValue::Integer(f.download_bytes as i64));
    out.push(SqlValue::Integer(f.packet_count as i64));
    let mut attribution = attribution_params(&f.domain);
    let ghost head = out@;
    let ghost tail = attribution@;
    out.append(&mut attribution);
    out.push(text_value(f.connection_state.as_str()));
    proof {
        assert(crate::sql::row_view(tail).len() == 5);
        assert(forall|i: int|
            0 <= i < 5 ==> crate::sql::row_view(tail)[i] == (#[trigger] tail[i])@);
        assert(crate::sql::row_view(out@) =~= flow_row(f@));
    }
    out
}

/// The message when a domain's minute holds less than what is to be taken from it.
pub open spec fn shortfall(mac: Seq<char>, domain: Seq<char>, minute_ms: i64) -> Seq<char> {
    "domain contribution exceeds aggregate for "@ + mac + "/"@ + domain + "/"@
        + crate::text::decimal_signed(minute_ms as int)
}

fn shortfall_text(mac: &String, domain: &String, minute_ms: i64) -> (r: String)
    ensures
        r@ == shortfall(mac@, domain@, minute_ms),
{
    let mut out = "domain contribution exceeds aggregate for ".to_owned();
    out.append(mac.as_str());
    out.append("/");
    out.append(domain.as_str());
    out.append("/");
    push_decimal_signed(&mut out, minute_ms);
    out
}

/// A command that may change any number of rows.
pub open spec fn plain(
    sql: Seq<char>,
    params: Seq<crate::sql::SqlView>,
) -> crate::sql::CommandView {
    crate::sql::CommandView { sql, params, one_row: None }
}

/// The commands that carry out a change.
pub open spec fn commands_of(s: crate::storage::StatementView) -> Seq<crate::sql::CommandView> {
    match s {
        crate::storage::StatementView::UpsertDevice {
            mac_address,
            display_name,
            current_ip,
        } => seq![
            plain(
                UPSERT_DEVICE@,
                seq![
                    crate::sql::text_param(mac_address),
                    crate::sql::opt_text_param(display_name),
                    crate::sql::opt_text_param(current_ip),
                ],
            ),
        ],
        crate::storage::StatementView::UpsertFlow { flow } => seq![
            plain(UPSERT_FLOW@, flow_row(flow)),
        ],
        crate::storage::StatementView::AddDeviceMinute {
            mac_address,
            minute_ms,
            upload_bytes,
            download_bytes,
        } => seq![
            plain(
                ADD_DEVICE_MINUTE@,
                seq![
                    crate::sql::text_param(mac_address),
                    crate::sql::SqlView::Integer(minute_ms),
                    crate::sql::SqlView::Integer(upload_bytes),
                    crate::sql::SqlView::Integer(download_bytes),
                ],
            ),
        ],
        crate::storage::StatementView::AddDomainMinute {
            mac_address,
            attribution,
            minute_ms,
            upload_bytes,
            download_bytes,
        } => seq![
            plain(
                ADD_DOMAIN_MINUTE@,
                seq![
                    crate::sql::text_param(mac_address),
                    crate::sql::text_param(attribution.domain),
                    crate::sql::SqlView::Integer(minute_ms),
                    crate::sql::SqlView::Integer(upload_bytes),
                    crate::sql::SqlView::Integer(download_bytes),
                    crate::sql::text_param(attribution.source.text()),
                    crate::sql::text_param(attribution.confidence.text()),
                ],
            ),
        ],
        crate::storage::StatementView::SubtractDomainMinute {
            mac_address,
            domain,
            minute_ms,
            upload_bytes,
            download_bytes,
        } => seq![
            crate::sql::CommandView {
                sql: SUBTRACT_DOMAIN_MINUTE@,
                params: seq![
                    crate::sql::text_param(mac_address),
                    crate::sql::text_param(domain),
                    crate::sql::SqlView::Integer(minute_ms),
                    crate::sql::SqlView::Integer(upload_bytes),
                    crate::sql::SqlView::Integer(download_bytes),
                ],
                one_row: Some(shortfall(mac_address, domain, minute_ms)),
            },
            plain(
                DROP_EMPTY_DOMAIN_MINUTE@,
                seq![
                    crate::sql::text_param(mac_address),
                    crate::sql::text_param(domain),
                    crate::sql::SqlView::Integer(minute_ms),
                ],
            ),
        ],
        crate::storage::StatementView::MarkDomainMinute {
            mac_address,
            attribution,
            minute_ms,
        } => seq![
            plain(
                MARK_DOMAIN_MINUTE@,
                seq![
                    crate::sql::text_param(mac_address),
                    crate::sql::text_param(attribution.domain),
                    crate::sql::SqlView::Integer(minute_ms),
                    crate::sql::text_param(attribution.source.text()),
                    crate::sql::text_param(attribution.confidence.text()),
                ],
            ),
        ],
        crate::storage::StatementView::AddContribution {
            flow_id,
            mac_address,
            minute_ms,
            upload_bytes,
            download_bytes,
            attribution,
        } => seq![
            plain(
                ADD_CONTRIBUTION@,
                seq![
                    crate::sql::text_param(flow_id),
                    crate::sql::text_param(mac_address),
                    crate::sql::SqlView::Integer(minute_ms),
                    crate::sql::SqlView::Integer(upload_bytes),
                    crate::sql::SqlView::Integer(download_bytes),
                ] + attribution_row(attribution),
            ),
        ],
        crate::storage::StatementView::MarkContributions { flow_id, attribution } => seq![
            plain(
                MARK_CONTRIBUTIONS@,
                seq![
                    crate::sql::text_param(flow_id),
                    crate::sql::text_param(attribution.domain),
                    crate::sql::text_param(attribution.source.text()),
                    crate::sql::text_param(attribution.confidence.text()),
                    crate::sql::SqlView::Integer(attribution.associated_at),
                    crate::sql::opt_int_param(attribution.expires_at),
                ],
            ),
        ],
        crate::storage::StatementView::SetFlowDomain { flow_id, attribution } => seq![
            plain(
                SET_FLOW_DOMAIN@,
                seq![
                    crate::sql::text_param(flow_id),
                    crate::sql::text_param(attribution.domain),
                    crate::sql::text_param(attribution.source.text()),
                    crate::sql::text_param(attribution.confidence.text()),
                    crate::sql::SqlView::Integer(attribution.associated_at),
                    crate::sql::opt_int_param(attribution.expires_at),
                ],
            ),
        ],
        crate::storage::StatementView::DeleteDeviceMinutesOf { mac_address } => seq![
            plain(DELETE_DEVICE_MINUTES_OF@, seq![crate::sql::text_param(mac_address)]),
        ],
        crate::storage::StatementView::DeleteDomainMinutesOf { mac_address } => seq![
            plain(DELETE_DOMAIN_MINUTES_OF@, seq![crate::sql::text_param(mac_address)]),
        ],
        crate::storage::StatementView::DeleteFlowsOf { mac_address } => seq![
            plain(DELETE_FLOWS_OF@, seq![crate::sql::text_param(mac_address)]),
        ],
        crate::storage::StatementView::DeleteDevice { mac_address } => seq![
            plain(DELETE_DEVICE@, seq![crate::sql::text_param(mac_address)]),
        ],
        crate::storage::StatementView::DeleteContributionsTo {
            mac_address,
            domain,
        } => match mac_address {
            Some(mac) => seq![
                plain(
                    DELETE_CONTRIBUTIONS_OF_TO@,
                    seq![crate::sql::text_param(mac), crate::sql::text_param(domain)],
                ),
            ],
            None => seq![plain(DELETE_CONTRIBUTIONS_TO@, seq![crate::sql::text_param(domain)])],
        },
        crate::storage::StatementView::DeleteDomainMinutesFor {
            mac_address,
            domain,
        } => match mac_address {
            Some(mac) => seq![
                plain(
                    DELETE_DOMAIN_MINUTES_OF_FOR@,
                    seq![crate::sql::text_param(mac), crate::sql::text_param(domain)],
                ),
            ],
            None => seq![plain(DELETE_DOMAIN_MINUTES_FOR@, seq![crate::sql::text_param(domain)])],
        },
        crate::storage::StatementView::RedactFlows { mac_address, domain } => match mac_address {
            Some(mac) => seq![
                plain(
                    REDACT_FLOWS_OF@,
                    seq![crate::sql::text_param(mac), crate::sql::text_param(domain)],
                ),
            ],
            None => seq![plain(REDACT_FLOWS@, seq![crate::sql::text_param(domain)])],
        },
        crate::storage::StatementView::DeleteDeviceMinutesIn { from_ms, to_ms } => seq![
            plain(
                DELETE_DEVICE_MINUTES_IN@,
                seq![crate::sql::SqlView::Integer(from_ms), crate::sql::SqlView::Integer(to_ms)],
            ),
        ],
        crate::storage::StatementView::DeleteDomainMinutesIn { from_ms, to_ms } => seq![
            plain(
                DELETE_DOMAIN_MINUTES_IN@,
                seq![crate::sql::SqlView::Integer(from_ms), crate::sql::SqlView::Integer(to_ms)],
            ),
        ],
        crate::storage::StatementView::DeleteContributionsIn { from_ms, to_ms } => seq![
            plain(
                DELETE_CONTRIBUTIONS_IN@,
                seq![crate::sql::SqlView::Integer(from_ms), crate::sql::SqlView::Integer(to_ms)],
            ),
        ],
        crate::storage::StatementView::DeleteFlowsIn { from_ms, to_ms } => seq![
            plain(
                DELETE_FLOWS_IN@,
                seq![crate::sql::SqlView::Integer(from_ms), crate::sql::SqlView::Integer(to_ms)],
            ),
        ],
        crate::storage::StatementView::DeleteFlowsBefore { cutoff_ms } => seq![
            plain(DELETE_FLOWS_BEFORE@, seq![crate::sql::SqlView::Integer(cutoff_ms)]),
        ],
        crate::storage::StatementView::DeleteDeviceMinutesBefore { cutoff_ms } => seq![
            plain(DELETE_DEVICE_MINUTES_BEFORE@, seq![crate::sql::SqlView::Integer(cutoff_ms)]),
        ],
        crate::storage::StatementView::DeleteContributionsBefore { cutoff_ms } => seq![
            plain(DELETE_CONTRIBUTIONS_BEFORE@, seq![crate::sql::SqlView::Integer(cutoff_ms)]),
        ],
        crate::storage::StatementView::DeleteDomainMinutesBefore { cutoff_ms } => seq![
            plain(DELETE_DOMAIN_MINUTES_BEFORE@, seq![crate::sql::SqlView::Integer(cutoff_ms)]),
        ],
        crate::storage::StatementView::RenameDevice { mac_address, display_name } => seq![
            plain(
                RENAME_DEVICE@,
                seq![crate::sql::opt_text_param(display_name), crate::sql::text_param(mac_address)],
            ),
        ],
    }
}

/// Two values as parameters.
fn params2(a: SqlValue, b: SqlValue) -> (r: Vec<SqlValue>)
    ensures
        crate::sql::row_view(r@) == seq![a@, b@],
{
    let mut out: Vec<SqlValue> = Vec::new();
    out.push(a);
    out.push(b);
    proof {
        assert(crate::sql::row_view(out@) =~= seq![a@, b@]);
    }
    out
}

/// One value as a parameter.
fn params1(a: SqlValue) -> (r: Vec<SqlValue>)
    ensures
        crate::sql::row_view(r@) == seq![a@],
{
    let mut out: Vec<SqlValue> = Vec::new();
    out.push(a);
    proof {
        assert(crate::sql::row_view(out@) =~= seq![a@]);
    }
    out
}

impl Statement {
    /// The commands that carry out the change, in order.
    pub fn commands(&self) -> (r: Vec<Command>)
        ensures
            crate::sql::commands_view(r@) == commands_of(self@),
    {
        let mut out: Vec<Command> = Vec::new();
        match self {
            Statement::UpsertDevice { mac_address, display_name, current_ip } => {
                let mut params: Vec<SqlValue> = Vec::new();
                params.push(text_value(mac_address.as_str()));
                params.push(opt_text_value(display_name));
                params.push(opt_text_value(current_ip));
                proof {
                    assert(crate::sql::row_view(params@) =~= commands_of(self@)[0].params);
                }
                out.push(Command::new(UPSERT_DEVICE, params));
            },
            Statement::UpsertFlow { flow } => {
                let params = flow_params(flow);
                out.push(Command::new(UPSERT_FLOW, params));
            },
            Statement::AddDeviceMinute { mac_address, minute_ms, upload_bytes, download_bytes } => {
                let mut params: Vec<SqlValue> = Vec::new();
                params.push(text_value(mac_address.as_str()));
                params.push(SqlValue::Integer(*minute_ms));
                params.push(SqlValue::Integer(*upload_bytes));
                params.push(SqlValue::Integer(*download_bytes));
                proof {
                    assert(crate::sql::row_view(params@) =~= commands_of(self@)[0].params);
                }
                out.push(Command::new(ADD_DEVICE_MINUTE, params));
            },
            Statement::AddDomainMinute {
                mac_address,
                attribution,
                minute_ms,
                upload_bytes,
                download_bytes,
            } => {
                let mut params: Vec<SqlValue> = Vec::new();
                params.push(text_value(mac_address.as_str()));
                params.push(text_value(attribution.domain.as_str()));
                params.push(SqlValue::Integer(*minute_ms));
                params.push(SqlValue::Integer(*upload_bytes));
                params.push(SqlValue::Integer(*download_bytes));
                params.push(text_value(attribution.source.as_str()));
                params.push(text_value(attribution.confidence.as_str()));
                proof {
                    assert(crate::sql::row_view(params@) =~= commands_of(self@)[0].params);
                }
                out.push(Command::new(ADD_DOMAIN_MINUTE, params));
            },
            Statement::SubtractDomainMinute {
                mac_address,
                domain,
                minute_ms,
                upload_bytes,
                download_bytes,
            } => {
                let mut params: Vec<SqlValue> = Vec::new();
                params.push(text_value(mac_address.as_str()));
                params.push(text_value(domain.as_str()));
                params.push(SqlValue::Integer(*minute_ms));
                params.push(SqlValue::Integer(*upload_bytes));
                params.push(SqlValue::Integer(*download_bytes));
                proof {
                    assert(crate::sql::row_view(params@) =~= commands_of(self@)[0].params);
                }
                let message = shortfall_text(mac_address, domain, *minute_ms);
                out.push(
                    Command {
                        sql: SUBTRACT_DOMAIN_MINUTE.to_owned(),
                        params,
                        one_row: Some(message),
                    },
                );
                let mut params: Vec<SqlValue> = Vec::new();
                params.push(text_value(mac_address.as_str()));
                params.push(text_value(domain.as_str()));
                params.push(SqlValue::Integer(*minute_ms));
                proof {
                    assert(crate::sql::row_view(params@) =~= commands_of(self@)[1].params);
                }
                out.push(Command::new(DROP_EMPTY_DOMAIN_MINUTE, params));
            },
            Statement::MarkDomainMinute { mac_address, attribution, minute_ms } => {
                let mut params: Vec<SqlValue> = Vec::new();
                params.push(text_value(mac_address.as_str()));
                params.push(text_value(attribution.domain.as_str()));
                params.push(SqlValue::Integer(*minute_ms));
                params.push(text_value(attribution.source.as_str()));
                params.push(text_value(attribution.confidence.as_str()));
                proof {
                    assert(crate::sql::row_view(params@) =~= commands_of(self@)[0].params);
                }
                out.push(Command::new(MARK_DOMAIN_MINUTE, params));
            },
            Statement::AddContribution {
                flow_id,
                mac_address,
                minute_ms,
                upload_bytes,
                download_bytes,
                attribution,
            } => {
                let mut params: Vec<SqlValue> = Vec::new();
                params.push(text_value(flow_id.as_str()));
                params.push(text_value(mac_address.as_str()));
                params.push(SqlValue::Integer(*minute_ms));
                params.push(SqlValue::Integer(*upload_bytes));
                params.push(SqlValue::Integer(*download_bytes));
                let mut rest = attribution_params(attribution);
                let ghost head = params@;
                let ghost tail = rest@;
                params.append(&mut rest);
                proof {
                    assert(crate::sql::row_view(params@) =~= crate::sql::row_view(head)
                        + crate::sql::row_view(tail));
                    assert(
                        crate::sql::row_view(head) =~= seq![
                            crate::sql::text_param(flow_id@),
                            crate::sql::text_param(mac_address@),
                            crate::sql::SqlView::Integer(*minute_ms),
                            crate::sql::SqlView::Integer(*upload_bytes),
                            crate::sql::SqlView::Integer(*download_bytes),
                        ]
                    );
                }
                out.push(Command::new(ADD_CONTRIBUTION, params));
            },
            Statement::MarkContributions { flow_id, attribution } => {
                let mut params: Vec<SqlValue> = Vec::new();
                params.push(text_value(flow_id.as_str()));
                params.push(text_value(attribution.domain.as_str()));
                params.push(text_value(attribution.source.as_str()));
                params.push(text_value(attribution.confidence.as_str()));
                params.push(SqlValue::Integer(attribution.associated_at));
                params.push(opt_int_value(attribution.expires_at));
                proof {
                    assert(crate::sql::row_view(params@) =~= commands_of(self@)[0].params);
                }
                out.push(Command::new(MARK_CONTRIBUTIONS, params));
            },
            Statement::SetFlowDomain { flow_id, attribution } => {
                let mut params: Vec<SqlValue> = Vec::new();
                params.push(text_value(flow_id.as_str()));
                params.push(text_value(attribution.domain.as_str()));
                params.push(text_value(attribution.source.as_str()));
                params.push(text_value(attribution.confidence.as_str()));
                params.push(SqlValue::Integer(attribution.associated_at));
                params.push(opt_int_value(attribution.expires_at));
                proof {
                    assert(crate::sql::row_view(params@) =~= commands_of(self@)[0].params);
                }
                out.push(Command::new(SET_FLOW_DOMAIN, params));
            },
            Statement::DeleteDeviceMinutesOf { mac_address } => {
                let params = params1(text_value(mac_address.as_str()));
                out.push(Command::new(DELETE_DEVICE_MINUTES_OF, params));
            },
            Statement::DeleteDomainMinutesOf { mac_address } => {
                let params = params1(text_value(mac_address.as_str()));
                out.push(Command::new(DELETE_DOMAIN_MINUTES_OF, params));
            },
            Statement::DeleteFlowsOf { mac_address } => {
                let params = params1(text_value(mac_address.as_str()));
                out.push(Command::new(DELETE_FLOWS_OF, params));
            },
            Statement::DeleteDevice { mac_address } => {
                let params = params1(text_value(mac_address.as_str()));
                out.push(Command::new(DELETE_DEVICE, params));
            },
            Statement::DeleteContributionsTo { mac_address, domain } => {
                match mac_address {
                    Some(mac) => {
                        out.push(
                            Command::new(
                                DELETE_CONTRIBUTIONS_OF_TO,
                                params2(text_value(mac.as_str()), text_value(domain.as_str())),
                            ),
                        );
                    },
                    None => {
                        out.push(
                            Command::new(
                                DELETE_CONTRIBUTIONS_TO,
                                params1(text_value(domain.as_str())),
                            ),
                        );
                    },
                }
            },
            Statement::DeleteDomainMinutesFor { mac_address, domain } => {
                match mac_address {
                    Some(mac) => {
                        out.push(
                            Command::new(
                                DELETE_DOMAIN_MINUTES_OF_FOR,
                                params2(text_value(mac.as_str()), text_value(domain.as_str())),
                            ),
                        );
                    },
                    None => {
                        out.push(
                            Command::new(
                                DELETE_DOMAIN_MINUTES_FOR,
                                params1(text_value(domain.as_str())),
                            ),
                        );
                    },
                }
            },
            Statement::RedactFlows { mac_address, domain } => {
                match mac_address {
                    Some(mac) => {
                        out.push(
                            Command::new(
                                REDACT_FLOWS_OF,
                                params2(text_value(mac.as_str()), text_value(domain.as_str())),
                            ),
                        );
                    },
                    None => {
                        out.push(
                            Command::new(REDACT_FLOWS, params1(text_value(domain.as_str()))),
                        );
                    },
                }
            },
            Statement::DeleteDeviceMinutesIn { from_ms, to_ms } => {
                let params = params2(SqlValue::Integer(*from_ms), SqlValue::Integer(*to_ms));
                out.push(Command::new(DELETE_DEVICE_MINUTES_IN, params));
            },
            Statement::DeleteDomainMinutesIn { from_ms, to_ms } => {
                let params = params2(SqlValue::Integer(*from_ms), SqlValue::Integer(*to_ms));
                out.push(Command::new(DELETE_DOMAIN_MINUTES_IN, params));
            },
            Statement::DeleteContributionsIn { from_ms, to_ms } => {
                let params = params2(SqlValue::Integer(*from_ms), SqlValue::Integer(*to_ms));
                out.push(Command::new(DELETE_CONTRIBUTIONS_IN, params));
            },
            Statement::DeleteFlowsIn { from_ms, to_ms } => {
                let params = params2(SqlValue::Integer(*from_ms), SqlValue::Integer(*to_ms));
                out.push(Command::new(DELETE_FLOWS_IN, params));
            },
            Statement::DeleteFlowsBefore { cutoff_ms } => {
                let params = params1(SqlValue::Integer(*cutoff_ms));
                out.push(Command::new(DELETE_FLOWS_BEFORE, params));
            },
            Statement::DeleteDeviceMinutesBefore { cutoff_ms } => {
                let params = params1(SqlValue::Integer(*cutoff_ms));
                out.push(Command::new(DELETE_DEVICE_MINUTES_BEFORE, params));
            },
            Statement::DeleteContributionsBefore { cutoff_ms } => {
                let params = params1(SqlValue::Integer(*cutoff_ms));
                out.push(Command::new(DELETE_CONTRIBUTIONS_BEFORE, params));
            },
            Statement::DeleteDomainMinutesBefore { cutoff_ms } => {
                let params = params1(SqlValue::Integer(*cutoff_ms));
                out.push(Command::new(DELETE_DOMAIN_MINUTES_BEFORE, params));
            },
            Statement::RenameDevice { mac_address, display_name } => {
                let params = params2(
                    opt_text_value(display_name),
                    text_value(mac_address.as_str()),
                );
                out.push(Command::new(RENAME_DEVICE, params));
            },
        }
        proof {
            assert(crate::sql::commands_view(out@) =~= commands_of(self@));
        }
        out
    }
}

/// Reads the state of a stored flow.
pub fn stored_state_query(flow_id: &str) -> (r: Command)
    ensures
        r@ == plain(SELECT_STORED_STATE@, seq![crate::sql::text_param(flow_id@)]),
{
    Command::new(SELECT_STORED_STATE, params1(text_value(flow_id)))
}

/// Reads what a flow has contributed.
pub fn contributions_query(flow_id: &str) -> (r: Command)
    ensures
        r@ == plain(SELECT_CONTRIBUTIONS@, seq![crate::sql::text_param(flow_id@)]),
{
    Command::new(SELECT_CONTRIBUTIONS, params1(text_value(flow_id)))
}

/// Yields a row where a device is known.
pub fn device_exists_query(mac_address: &str) -> (r: Command)
    ensures
        r@ == plain(SELECT_DEVICE_EXISTS@, seq![crate::sql::text_param(mac_address@)]),
{
    Command::new(SELECT_DEVICE_EXISTS, params1(text_value(mac_address)))
}

/// Counts the flows of a device.
pub fn device_flow_count_query(mac_address: &str) -> (r: Command)
    ensures
        r@ == plain(COUNT_FLOWS_OF@, seq![crate::sql::text_param(mac_address@)]),
{
    Command::new(COUNT_FLOWS_OF, params1(text_value(mac_address)))
}

/// Counts what a device has contributed.
pub fn device_contribution_count_query(mac_address: &str) -> (r: Command)
    ensures
        r@ == plain(COUNT_CONTRIBUTIONS_OF@, seq![crate::sql::text_param(mac_address@)]),
{
    Command::new(COUNT_CONTRIBUTIONS_OF, params1(text_value(mac_address)))
}

/// Counts the flows that overlap a range of time.
pub fn range_flow_count_query(from_ms: i64, to_ms: i64) -> (r: Command)
    ensures
        r@ == plain(
            COUNT_FLOWS_IN@,
            seq![crate::sql::SqlView::Integer(from_ms), crate::sql::SqlView::Integer(to_ms)],
        ),
{
    Command::new(COUNT_FLOWS_IN, params2(SqlValue::Integer(from_ms), SqlValue::Integer(to_ms)))
}

/// Counts what was contributed in a range of time, or by a flow that overlaps it.
pub fn range_contribution_count_query(from_ms: i64, to_ms: i64) -> (r: Command)
    ensures
        r@ == plain(
            COUNT_CONTRIBUTIONS_IN@,
            seq![crate::sql::SqlView::Integer(from_ms), crate::sql::SqlView::Integer(to_ms)],
        ),
{
    Command::new(
        COUNT_CONTRIBUTIONS_IN,
        params2(SqlValue::Integer(from_ms), SqlValue::Integer(to_ms)),
    )
}

/// Lists the devices by MAC address.
pub fn devices_query() -> (r: Command)
    ensures
        r@ == plain(SELECT_DEVICES@, seq![]),
{
    let params: Vec<SqlValue> = Vec::new();
    proof {
        assert(crate::sql::row_view(params@) =~= Seq::<crate::sql::SqlView>::empty());
    }
    Command::new(SELECT_DEVICES, params)
}

/// Finds a device.
pub fn device_query(mac_address: &str) -> (r: Command)
    ensures
        r@ == plain(SELECT_DEVICE@, seq![crate::sql::text_param(mac_address@)]),
{
    Command::new(SELECT_DEVICE, params1(text_value(mac_address)))
}

/// Sums up the flows of a device last seen at a time or later.
pub fn summary_query(mac_address: &str, since_ms: i64) -> (r: Command)
    ensures
        r@ == plain(
            SUMMARIZE_FLOWS@,
            seq![crate::sql::text_param(mac_address@), crate::sql::SqlView::Integer(since_ms)],
        ),
{
    Command::new(SUMMARIZE_FLOWS, params2(text_value(mac_address), SqlValue::Integer(since_ms)))
}

/// Lists the traffic of a device from a time on.
pub fn device_minutes_query(mac_address: &str, since_ms: i64) -> (r: Command)
    ensures
        r@ == plain(
            SELECT_DEVICE_MINUTES@,
            seq![crate::sql::text_param(mac_address@), crate::sql::SqlView::Integer(since_ms)],
        ),
{
    Command::new(
        SELECT_DEVICE_MINUTES,
        params2(text_value(mac_address), SqlValue::Integer(since_ms)),
    )
}

/// Lists the traffic of a device with a domain from a time on.
pub fn domain_minutes_query(mac_address: &str, domain: &str, since_ms: i64) -> (r: Command)
    ensures
        r@ == plain(
            SELECT_DOMAIN_MINUTES@,
            seq![
                crate::sql::text_param(mac_address@),
                crate::sql::text_param(domain@),
                crate::sql::SqlView::Integer(since_ms),
            ],
        ),
{
    let mut params: Vec<SqlValue> = Vec::new();
    params.push(text_value(mac_address));
    params.push(text_value(domain));
    params.push(SqlValue::Integer(since_ms));
    proof {
        assert(
            crate::sql::row_view(params@) =~= seq![
                crate::sql::text_param(mac_address@),
                crate::sql::text_param(domain@),
                crate::sql::SqlView::Integer(since_ms),
            ]
        );
    }
    Command::new(SELECT_DOMAIN_MINUTES, params)
}

/// Finds the account that was created first.
pub fn first_account_query() -> (r: Command)
    ensures
        r@ == plain(SELECT_FIRST_ACCOUNT@, seq![]),
{
    let params: Vec<SqlValue> = Vec::new();
    proof {
        assert(crate::sql::row_view(params@) =~= Seq::<crate::sql::SqlView>::empty());
    }
    Command::new(SELECT_FIRST_ACCOUNT, params)
}

/// Creates an account while there is none.
pub fn insert_account(username: &str, password_hash: &str) -> (r: Command)
    ensures
        r@ == plain(
            INSERT_ACCOUNT@,
            seq![crate::sql::text_param(username@), crate::sql::text_param(password_hash@)],
        ),
{
    Command::new(INSERT_ACCOUNT, params2(text_value(username), text_value(password_hash)))
}

/// The limit as the database takes it; one that does not fit is the largest.
pub open spec fn limit_param(limit: usize) -> i64 {
    if limit <= i64::MAX {
        limit as i64
    } else {
        i64::MAX
    }
}

fn limit_value(limit: usize) -> (r: i64)
    ensures
        r == limit_param(limit),
{
    if limit as u64 <= i64::MAX as u64 {
        limit as i64
    } else {
        i64::MAX
    }
}

/// Lists the domains of a device by traffic from a time on.
pub fn domain_top_query(mac_address: &str, since_ms: i64, limit: usize) -> (r: Command)
    ensures
        r@ == plain(
            SELECT_DOMAIN_TOP@,
            seq![
                crate::sql::text_param(mac_address@),
                crate::sql::SqlView::Integer(since_ms),
                crate::sql::SqlView::Integer(limit as i64),
            ],
        ),
{
    let mut params: Vec<SqlValue> = Vec::new();
    params.push(text_value(mac_address));
    params.push(SqlValue::Integer(since_ms));
    params.push(SqlValue::Integer(limit as i64));
    proof {
        assert(crate::sql::row_view(params@) =~= seq![
            crate::sql::text_param(mac_address@),
            crate::sql::SqlView::Integer(since_ms),
            crate::sql::SqlView::Integer(limit as i64),
        ]);
    }
    Command::new(SELECT_DOMAIN_TOP, params)
}

/// The query for the flows that a binding covers: those of its client to its target that were seen
/// after it was made and began before it expires.
pub open spec fn covered_flows(
    mac: Seq<char>,
    target: Seq<char>,
    a: crate::domain::AttributionView,
) -> crate::sql::CommandView {
    plain(
        SELECT_COVERED_FLOWS@,
        seq![
            crate::sql::text_param(mac),
            crate::sql::text_param(target),
            crate::sql::SqlView::Integer(a.associated_at),
            crate::sql::SqlView::Integer(
                match a.expires_at {
                    Some(t) => t,
                    None => i64::MAX,
                },
            ),
        ],
    )
}

/// Finds the flows that a binding covers.
pub fn covered_flows_query(binding: &ResolvedDomainBinding) -> (r: Command)
    ensures
        r@ == covered_flows(binding.client_mac@, binding.target_ip@, binding.attribution@),
{
    let expires_at: i64 = match binding.attribution.expires_at {
        Some(t) => t,
        None => i64::MAX,
    };
    let mut params: Vec<SqlValue> = Vec::new();
    params.push(text_value(binding.client_mac.as_str()));
    params.push(text_value(binding.target_ip.as_str()));
    params.push(SqlValue::Integer(binding.attribution.associated_at));
    params.push(SqlValue::Integer(expires_at));
    proof {
        assert(crate::sql::row_view(params@) =~= covered_flows(
            binding.client_mac@,
            binding.target_ip@,
            binding.attribution@,
        ).params);
    }
    Command::new(SELECT_COVERED_FLOWS, params)
}

/// The query for a page of flows.
pub open spec fn flow_page(
    mac: Seq<char>,
    since_ms: i64,
    anchor: Option<(i64, Seq<char>)>,
    direction: FlowPageDirection,
    limit: usize,
) -> crate::sql::CommandView {
    match anchor {
        None => plain(
            SELECT_FLOWS@,
            seq![
                crate::sql::text_param(mac),
                crate::sql::SqlView::Integer(since_ms),
                crate::sql::SqlView::Integer(limit_param(limit)),
            ],
        ),
        Some(a) => plain(
            match direction {
                FlowPageDirection::Older => SELECT_OLDER_FLOWS@,
                FlowPageDirection::Newer => SELECT_NEWER_FLOWS@,
            },
            seq![
                crate::sql::text_param(mac),
                crate::sql::SqlView::Integer(since_ms),
                crate::sql::SqlView::Integer(a.0),
                crate::sql::text_param(a.1),
                crate::sql::SqlView::Integer(limit_param(limit)),
            ],
        ),
    }
}

/// The view of an optional anchor.
pub open spec fn anchor_view(a: Option<&FlowPageAnchor>) -> Option<(i64, Seq<char>)> {
    match a {
        Some(x) => Some((x.last_seen, x.flow_id@)),
        None => None,
    }
}

/// Lists a page of the flows of a device: the latest ones, or those next to an anchor.
pub fn list_flow_page(
    mac_address: &str,
    since_ms: i64,
    anchor: Option<&FlowPageAnchor>,
    direction: FlowPageDirection,
    limit: usize,
) -> (r: Command)
    ensures
        r@ == flow_page(mac_address@, since_ms, anchor_view(anchor), direction, limit),
{
    let mut params: Vec<SqlValue> = Vec::new();
    params.push(text_value(mac_address));
    params.push(SqlValue::Integer(since_ms));
    match anchor {
        None => {
            params.push(SqlValue::Integer(limit_value(limit)));
            proof {
                assert(crate::sql::row_view(params@) =~= flow_page(
                    mac_address@,
                    since_ms,
                    None,
                    direction,
                    limit,
                ).params);
            }
            Command::new(SELECT_FLOWS, params)
        },
        Some(a) => {
            params.push(SqlValue::Integer(a.last_seen));
            params.push(text_value(a.flow_id.as_str()));
            params.push(SqlValue::Integer(limit_value(limit)));
            proof {
                assert(crate::sql::row_view(params@) =~= flow_page(
                    mac_address@,
                    since_ms,
                    anchor_view(anchor),
                    direction,
                    limit,
                ).params);
            }
            match direction {
                FlowPageDirection::Older => Command::new(SELECT_OLDER_FLOWS, params),
                FlowPageDirection::Newer => Command::new(SELECT_NEWER_FLOWS, params),
            }
        },
    }
}

/// The device that a row stands for.
pub open spec fn device_of(row: Seq<crate::sql::SqlView>) -> Option<crate::domain::DeviceView> {
    if {
        &&& crate::sql::text_column(row, 0) is Some
        &&& crate::sql::opt_text_column(row, 1) is Some
        &&& crate::sql::opt_text_column(row, 2) is Some
    } {
        Some(
            crate::domain::DeviceView {
                mac_address: crate::sql::text_column(row, 0)->0,
                display_name: crate::sql::opt_text_column(row, 1)->0,
                current_ip: crate::sql::opt_text_column(row, 2)->0,
            },
        )
    } else {
        None
    }
}

/// Reads a device.
pub fn device_from_row(row: &Vec<SqlValue>) -> (r: Result<Device, StorageError>)
    ensures
        match r {
            Ok(v) => device_of(crate::sql::row_view(row@)) == Some(v@),
            Err(e) => device_of(crate::sql::row_view(row@)) is None && e@
                == crate::sql::ErrorView::Column,
        },
{
    let mac_address = match text_at(row, 0) {
        Ok(v) => v,
        Err(e) => {
            return Err(e);
        },
    };
    let display_name = match opt_text_at(row, 1) {
        Ok(v) => v,
        Err(e) => {
            return Err(e);
        },
    };
    let current_ip = match opt_text_at(row, 2) {
        Ok(v) => v,
        Err(e) => {
            return Err(e);
        },
    };
    Ok(Device { mac_address, display_name, current_ip })
}

/// The device traffic that a row stands for.
pub open spec fn device_minute_of(
    row: Seq<crate::sql::SqlView>,
) -> Option<crate::domain::DeviceMinuteStatView> {
    if {
        &&& crate::sql::text_column(row, 0) is Some
        &&& crate::sql::int_column(row, 1) is Some
        &&& crate::sql::int_column(row, 2) is Some
        &&& crate::sql::int_column(row, 3) is Some
    } {
        Some(
            crate::domain::DeviceMinuteStatView {
                mac_address: crate::sql::text_column(row, 0)->0,
                minute_ms: crate::sql::int_column(row, 1)->0,
                upload_bytes: (crate::sql::int_column(row, 2)->0) as u64,
                download_bytes: (crate::sql::int_column(row, 3)->0) as u64,
            },
        )
    } else {
        None
    }
}

/// Reads device traffic.
pub fn device_minute_from_row(row: &Vec<SqlValue>) -> (r: Result<DeviceMinuteStat, StorageError>)
    ensures
        match r {
            Ok(v) => device_minute_of(crate::sql::row_view(row@)) == Some(v@),
            Err(e) => device_minute_of(crate::sql::row_view(row@)) is None && e@
                == crate::sql::ErrorView::Column,
        },
{
    let mac_address = match text_at(row, 0) {
        Ok(v) => v,
        Err(e) => {
            return Err(e);
        },
    };
    let minute_ms: i64 = match int_at(row, 1) {
        Ok(v) => v,
        Err(e) => {
            return Err(e);
        },
    };
    let upload_bytes: i64 = match int_at(row, 2) {
        Ok(v) => v,
        Err(e) => {
            return Err(e);
        },
    };
    let download_bytes: i64 = match int_at(row, 3) {
        Ok(v) => v,
        Err(e) => {
            return Err(e);
        },
    };
    Ok(
        DeviceMinuteStat {
            mac_address,
            minute_ms,
            upload_bytes: upload_bytes as u64,
            download_bytes: download_bytes as u64,
        },
    )
}

/// The domain traffic that a row stands for.
pub open spec fn domain_minute_of(
    row: Seq<crate::sql::SqlView>,
) -> Option<crate::domain::DomainMinuteStatView> {
    if {
        &&& crate::sql::text_column(row, 5) is Some
        &&& crate::sql::text_column(row, 6) is Some
        &&& crate::sql::text_column(row, 0) is Some
        &&& crate::sql::text_column(row, 1) is Some
        &&& crate::sql::int_column(row, 2) is Some
        &&& crate::sql::int_column(row, 3) is Some
        &&& crate::sql::int_column(row, 4) is Some
    } {
        Some(
            crate::domain::DomainMinuteStatView {
                mac_address: crate::sql::text_column(row, 0)->0,
                domain: crate::sql::text_column(row, 1)->0,
                minute_ms: crate::sql::int_column(row, 2)->0,
                upload_bytes: (crate::sql::int_column(row, 3)->0) as u64,
                download_bytes: (crate::sql::int_column(row, 4)->0) as u64,
                source: crate::storage::source_or_unknown(crate::sql::text_column(row, 5)->0),
                confidence: crate::storage::confidence_or_unknown(
                    crate::sql::text_column(row, 6)->0,
                ),
            },
        )
    } else {
        None
    }
}

/// Reads domain traffic.
pub fn domain_minute_from_row(row: &Vec<SqlValue>) -> (r: Result<DomainMinuteStat, StorageError>)
    ensures
        match r {
            Ok(v) => domain_minute_of(crate::sql::row_view(row@)) == Some(v@),
            Err(e) => domain_minute_of(crate::sql::row_view(row@)) is None && e@
                == crate::sql::ErrorView::Column,
        },
{
    let source = match text_at(row, 5) {
        Ok(v) => v,
        Err(e) => {
            return Err(e);
        },
    };
    let confidence = match text_at(row, 6) {
        Ok(v) => v,
        Err(e) => {
            return Err(e);
        },
    };
    let mac_address = match text_at(row, 0) {
        Ok(v) => v,
        Err(e) => {
            return Err(e);
        },
    };
    let domain = match text_at(row, 1) {
        Ok(v) => v,
        Err(e) => {
            return Err(e);
        },
    };
    let minute_ms: i64 = match int_at(row, 2) {
        Ok(v) => v,
        Err(e) => {
            return Err(e);
        },
    };
    let upload_bytes: i64 = match int_at(row, 3) {
        Ok(v) => v,
        Err(e) => {
            return Err(e);
        },
    };
    let download_bytes: i64 = match int_at(row, 4) {
        Ok(v) => v,
        Err(e) => {
            return Err(e);
        },
    };
    Ok(
        DomainMinuteStat {
            mac_address,
            domain,
            minute_ms,
            upload_bytes: upload_bytes as u64,
            download_bytes: download_bytes as u64,
            source: parse_source(source.as_str()),
            confidence: parse_confidence(confidence.as_str()),
        },
    )
}

/// The domain summary that a row stands for.
pub open spec fn domain_summary_of(
    row: Seq<crate::sql::SqlView>,
) -> Option<crate::domain::DomainTrafficSummaryView> {
    if {
        &&& crate::sql::text_column(row, 4) is Some
        &&& crate::sql::text_column(row, 5) is Some
        &&& crate::sql::int_column(row, 1) is Some
        &&& crate::sql::int_column(row, 2) is Some
        &&& crate::sql::text_column(row, 0) is Some
        &&& crate::sql::int_column(row, 3) is Some
    } {
        Some(
            crate::domain::DomainTrafficSummaryView {
                domain: crate::sql::text_column(row, 0)->0,
                upload_bytes: (crate::sql::int_column(row, 1)->0) as u64,
                download_bytes: (crate::sql::int_column(row, 2)->0) as u64,
                total_bytes: (crate::sql::int_column(row, 3)->0) as u64,
                source: crate::storage::source_or_unknown(crate::sql::text_column(row, 5)->0),
                confidence: crate::storage::confidence_or_unknown(
                    crate::sql::text_column(row, 4)->0,
                ),
            },
        )
    } else {
        None
    }
}

/// Reads a domain summary.
pub fn domain_summary_from_row(
    row: &Vec<SqlValue>,
) -> (r: Result<DomainTrafficSummary, StorageError>)
    ensures
        match r {
            Ok(v) => domain_summary_of(crate::sql::row_view(row@)) == Some(v@),
            Err(e) => domain_summary_of(crate::sql::row_view(row@)) is None && e@
                == crate::sql::ErrorView::Column,
        },
{
    let confidence = match text_at(row, 4) {
        Ok(v) => v,
        Err(e) => {
            return Err(e);
        },
    };
    let source = match text_at(row, 5) {
        Ok(v) => v,
        Err(e) => {
            return Err(e);
        },
    };
    let upload_bytes: i64 = match int_at(row, 1) {
        Ok(v) => v,
        Err(e) => {
            return Err(e);
        },
    };
    let download_bytes: i64 = match int_at(row, 2) {
        Ok(v) => v,
        Err(e) => {
            return Err(e);
        },
    };
    let domain = match text_at(row, 0) {
        Ok(v) => v,
        Err(e) => {
            return Err(e);
        },
    };
    let total_bytes: i64 = match int_at(row, 3) {
        Ok(v) => v,
        Err(e) => {
            return Err(e);
        },
    };
    Ok(
        DomainTrafficSummary {
            domain,
            upload_bytes: upload_bytes as u64,
            download_bytes: download_bytes as u64,
            total_bytes: total_bytes as u64,
            source: parse_source(source.as_str()),
            confidence: parse_confidence(confidence.as_str()),
        },
    )
}

/// The flow summary that a row stands for.
pub open spec fn summary_of(row: Seq<crate::sql::SqlView>) -> Option<DeviceFlowSummary> {
    if crate::sql::int_column(row, 0) is Some && crate::sql::int_column(row, 1) is Some
        && crate::sql::int_column(row, 2) is Some && crate::sql::opt_int_column(row, 3) is Some {
        Some(
            DeviceFlowSummary {
                upload_bytes: (crate::sql::int_column(row, 0)->0) as u64,
                download_bytes: (crate::sql::int_column(row, 1)->0) as u64,
                flow_count: (crate::sql::int_column(row, 2)->0) as usize,
                last_seen: crate::sql::opt_int_column(row, 3)->0,
            },
        )
    } else {
        None
    }
}

/// Reads a flow summary.
pub fn summary_from_row(row: &Vec<SqlValue>) -> (r: Result<DeviceFlowSummary, StorageError>)
    ensures
        match r {
            Ok(v) => summary_of(crate::sql::row_view(row@)) == Some(v),
            Err(e) => summary_of(crate::sql::row_view(row@)) is None && e@
                == crate::sql::ErrorView::Column,
        },
{
    let upload_bytes: i64 = match int_at(row, 0) {
        Ok(v) => v,
        Err(e) => {
            return Err(e);
        },
    };
    let download_bytes: i64 = match int_at(row, 1) {
        Ok(v) => v,
        Err(e) => {
            return Err(e);
        },
    };
    let flow_count: i64 = match int_at(row, 2) {
        Ok(v) => v,
        Err(e) => {
            return Err(e);
        },
    };
    let last_seen: Option<i64> = match opt_int_at(row, 3) {
        Ok(v) => v,
        Err(e) => {
            return Err(e);
        },
    };
    Ok(
        DeviceFlowSummary {
            upload_bytes: upload_bytes as u64,
            download_bytes: download_bytes as u64,
            flow_count: flow_count as usize,
            last_seen,
        },
    )
}

/// Reads an account: its user name and password hash.
pub fn account_from_row(row: &Vec<SqlValue>) -> (r: Result<(String, String), StorageError>)
    ensures
        match r {
            Ok(v) => crate::sql::text_column(crate::sql::row_view(row@), 0) == Some(v.0@)
                && crate::sql::text_column(crate::sql::row_view(row@), 1) == Some(v.1@),
            Err(e) => {
                &&& crate::sql::text_column(crate::sql::row_view(row@), 0) is None
                    || crate::sql::text_column(crate::sql::row_view(row@), 1) is None
                &&& e@ == crate::sql::ErrorView::Column
            },
        },
{
    let username = match text_at(row, 0) {
        Ok(v) => v,
        Err(e) => {
            return Err(e);
        },
    };
    match text_at(row, 1) {
        Ok(password_hash) => Ok((username, password_hash)),
        Err(e) => Err(e),
    }
}

/// The attribution of a stored flow: where there is a domain, everything else that is not optional
/// must be there too.
pub open spec fn flow_attribution_of(row: Seq<crate::sql::SqlView>) -> Option<
    Option<crate::domain::AttributionView>,
> {
    match crate::sql::opt_text_column(row, 19) {
        None => None,
        Some(None) => Some(None),
        Some(Some(domain)) => if crate::sql::text_column(row, 20) is Some
            && crate::sql::text_column(row, 21) is Some && crate::sql::int_column(row, 22) is Some
            && crate::sql::opt_int_column(row, 23) is Some {
            Some(
                Some(
                    crate::domain::AttributionView {
                        domain,
                        source: crate::storage::source_or_unknown(
                            crate::sql::text_column(row, 20)->0,
                        ),
                        confidence: crate::storage::confidence_or_unknown(
                            crate::sql::text_column(row, 21)->0,
                        ),
                        associated_at: crate::sql::int_column(row, 22)->0,
                        expires_at: crate::sql::opt_int_column(row, 23)->0,
                    },
                ),
            )
        } else {
            None
        },
    }
}

fn flow_attribution(row: &Vec<SqlValue>) -> (r: Result<Option<DomainAttribution>, StorageError>)
    ensures
        match r {
            Ok(a) => flow_attribution_of(crate::sql::row_view(row@)) == Some(
                crate::domain::attribution_view(a),
            ),
            Err(e) => flow_attribution_of(crate::sql::row_view(row@)) is None && e@
                == crate::sql::ErrorView::Column,
        },
{
    match opt_text_at(row, 19) {
        Err(e) => Err(e),
        Ok(None) => Ok(None),
        Ok(Some(domain)) => {
            let source = match text_at(row, 20) {
                Ok(v) => v,
                Err(e) => {
                    return Err(e);
                },
            };
            let confidence = match text_at(row, 21) {
                Ok(v) => v,
                Err(e) => {
                    return Err(e);
                },
            };
            let associated_at: i64 = match int_at(row, 22) {
                Ok(v) => v,
                Err(e) => {
                    return Err(e);
                },
            };
            match opt_int_at(row, 23) {
                Ok(expires_at) => Ok(
                    Some(
                        DomainAttribution {
                            domain,
                            source: parse_source(source.as_str()),
                            confidence: parse_confidence(confidence.as_str()),
                            associated_at,
                            expires_at,
                        },
                    ),
                ),
                Err(e) => Err(e),
            }
        },
    }
}

/// The direction that a stored form stands for; an unknown form is an upload.
pub open spec fn direction_or_upload(s: Seq<char>) -> FlowDirection {
    match FlowDirection::from_text(s) {
        Some(v) => v,
        None => FlowDirection::Upload,
    }
}

/// The state that a stored form stands for; an unknown form is the unknown state.
pub open spec fn state_or_unknown(s: Seq<char>) -> ConnectionState {
    match ConnectionState::from_text(s) {
        Some(v) => v,
        None => ConnectionState::Unknown,
    }
}

/// A port in a column that may be null.
pub open spec fn port_of(n: Option<i64>) -> Option<u16> {
    match n {
        Some(v) => Some(v as u16),
        None => None,
    }
}

fn port_from(n: Option<i64>) -> (r: Option<u16>)
    ensures
        r == port_of(n),
{
    match n {
        Some(v) => Some(v as u16),
        None => None,
    }
}

/// The flow that a row stands for.
pub open spec fn flow_of(row: Seq<crate::sql::SqlView>) -> Option<crate::domain::FlowView> {
    if {
        &&& flow_attribution_of(row) is Some
        &&& crate::sql::text_column(row, 4) is Some
        &&& crate::sql::text_column(row, 24) is Some
        &&& crate::sql::text_column(row, 0) is Some
        &&& crate::sql::int_column(row, 1) is Some
        &&& crate::sql::int_column(row, 2) is Some
        &&& crate::sql::text_column(row, 3) is Some
        &&& crate::sql::text_column(row, 5) is Some
        &&& crate::sql::text_column(row, 6) is Some
        &&& crate::sql::text_column(row, 7) is Some
        &&& crate::sql::text_column(row, 8) is Some
        &&& crate::sql::int_column(row, 9) is Some
        &&& crate::sql::text_column(row, 10) is Some
        &&& crate::sql::int_column(row, 11) is Some
        &&& crate::sql::opt_text_column(row, 12) is Some
        &&& crate::sql::opt_int_column(row, 13) is Some
        &&& crate::sql::opt_text_column(row, 14) is Some
        &&& crate::sql::opt_int_column(row, 15) is Some
        &&& crate::sql::int_column(row, 16) is Some
        &&& crate::sql::int_column(row, 17) is Some
        &&& crate::sql::int_column(row, 18) is Some
    } {
        Some(
            crate::domain::FlowView {
                direction: direction_or_upload(crate::sql::text_column(row, 4)->0),
                connection_state: state_or_unknown(crate::sql::text_column(row, 24)->0),
                flow_id: crate::sql::text_column(row, 0)->0,
                first_seen: crate::sql::int_column(row, 1)->0,
                last_seen: crate::sql::int_column(row, 2)->0,
                protocol: crate::sql::text_column(row, 3)->0,
                lan_interface: crate::sql::text_column(row, 5)->0,
                wan_interface: crate::sql::text_column(row, 6)->0,
                client_mac: crate::sql::text_column(row, 7)->0,
                client_ip: crate::sql::text_column(row, 8)->0,
                client_port: (crate::sql::int_column(row, 9)->0) as u16,
                destination_ip: crate::sql::text_column(row, 10)->0,
                destination_port: (crate::sql::int_column(row, 11)->0) as u16,
                nat_source_ip: crate::sql::opt_text_column(row, 12)->0,
                nat_source_port: port_of(crate::sql::opt_int_column(row, 13)->0),
                nat_destination_ip: crate::sql::opt_text_column(row, 14)->0,
                nat_destination_port: port_of(crate::sql::opt_int_column(row, 15)->0),
                upload_bytes: (crate::sql::int_column(row, 16)->0) as u64,
                download_bytes: (crate::sql::int_column(row, 17)->0) as u64,
                packet_count: (crate::sql::int_column(row, 18)->0) as u64,
                domain: flow_attribution_of(row)->0,
            },
        )
    } else {
        None
    }
}

/// Reads a flow.
pub fn flow_from_row(row: &Vec<SqlValue>) -> (r: Result<Flow, StorageError>)
    ensures
        match r {
            Ok(f) => flow_of(crate::sql::row_view(row@)) == Some(f@),
            Err(e) => flow_of(crate::sql::row_view(row@)) is None && e@
                == crate::sql::ErrorView::Column,
        },
{
    let direction = match text_at(row, 4) {
        Ok(v) => v,
        Err(e) => {
            return Err(e);
        },
    };
    let connection_state = match text_at(row, 24) {
        Ok(v) => v,
        Err(e) => {
            return Err(e);
        },
    };
    let flow_id = match text_at(row, 0) {
        Ok(v) => v,
        Err(e) => {
            return Err(e);
        },
    };
    let first_seen: i64 = match int_at(row, 1) {
        Ok(v) => v,
        Err(e) => {
            return Err(e);
        },
    };
    let last_seen: i64 = match int_at(row, 2) {
        Ok(v) => v,
        Err(e) => {
            return Err(e);
        },
    };
    let protocol = match text_at(row, 3) {
        Ok(v) => v,
        Err(e) => {
            return Err(e);
        },
    };
    let lan_interface = match text_at(row, 5) {
        Ok(v) => v,
        Err(e) => {
            return Err(e);
        },
    };
    let wan_interface = match text_at(row, 6) {
        Ok(v) => v,
        Err(e) => {
            return Err(e);
        },
    };
    let client_mac = match text_at(row, 7) {
        Ok(v) => v,
        Err(e) => {
            return Err(e);
        },
    };
    let client_ip = match text_at(row, 8) {
        Ok(v) => v,
        Err(e) => {
            return Err(e);
        },
    };
    let client_port: i64 = match int_at(row, 9) {
        Ok(v) => v,
        Err(e) => {
            return Err(e);
        },
    };
    let destination_ip = match text_at(row, 10) {
        Ok(v) => v,
        Err(e) => {
            return Err(e);
        },
    };
    let destination_port: i64 = match int_at(row, 11) {
        Ok(v) => v,
        Err(e) => {
            return Err(e);
        },
    };
    let nat_source_ip = match opt_text_at(row, 12) {
        Ok(v) => v,
        Err(e) => {
            return Err(e);
        },
    };
    let nat_source_port: Option<i64> = match opt_int_at(row, 13) {
        Ok(v) => v,
        Err(e) => {
            return Err(e);
        },
    };
    let nat_destination_ip = match opt_text_at(row, 14) {
        Ok(v) => v,
        Err(e) => {
            return Err(e);
        },
    };
    let nat_destination_port: Option<i64> = match opt_int_at(row, 15) {
        Ok(v) => v,
        Err(e) => {
            return Err(e);
        },
    };
    let upload_bytes: i64 = match int_at(row, 16) {
        Ok(v) => v,
        Err(e) => {
            return Err(e);
        },
    };
    let download_bytes: i64 = match int_at(row, 17) {
        Ok(v) => v,
        Err(e) => {
            return Err(e);
        },
    };
    let packet_count: i64 = match int_at(row, 18) {
        Ok(v) => v,
        Err(e) => {
            return Err(e);
        },
    };
    let domain = match flow_attribution(row) {
        Ok(v) => v,
        Err(e) => {
            return Err(e);
        },
    };
    let flow = Flow {
        flow_id,
        first_seen,
        last_seen,
        protocol,
        direction: match FlowDirection::parse(direction.as_str()) {
            Some(v) => v,
            None => FlowDirection::Upload,
        },
        lan_interface,
        wan_interface,
        client_mac,
        client_ip,
        client_port: client_port as u16,
        destination_ip,
        destination_port: destination_port as u16,
        nat_source_ip,
        nat_source_port: port_from(nat_source_port),
        nat_destination_ip,
        nat_destination_port: port_from(nat_destination_port),
        upload_bytes: upload_bytes as u64,
        download_bytes: download_bytes as u64,
        packet_count: packet_count as u64,
        domain,
        connection_state: match ConnectionState::parse(connection_state.as_str()) {
            Some(v) => v,
            None => ConnectionState::Unknown,
        },
    };
    proof {
        assert(flow_of(crate::sql::row_view(row@)) == Some(flow@));
    }
    Ok(flow)
}

/// A flow reads back from its columns as it was written, when its counters can be stored.
pub proof fn flow_row_reads_back(f: crate::domain::FlowView)
    requires
        f.upload_bytes <= i64::MAX,
        f.download_bytes <= i64::MAX,
        f.packet_count <= i64::MAX,
    ensures
        flow_of(flow_row(f)) == Some(f),
{
    let row = flow_row(f);
    f.direction.text_round_trips(f.direction.text());
    f.connection_state.text_round_trips(f.connection_state.text());
    if let Some(a) = f.domain {
        a.source.text_round_trips(a.source.text());
        a.confidence.text_round_trips(a.confidence.text());
    }
    assert(row.len() == 25);
    assert(forall|i: int| 0 <= i < 5 ==> row[19 + i] == #[trigger] attribution_row(f.domain)[i]);
    assert(row[19] == attribution_row(f.domain)[0]);
    assert(row[20] == attribution_row(f.domain)[1]);
    assert(row[21] == attribution_row(f.domain)[2]);
    assert(row[22] == attribution_row(f.domain)[3]);
    assert(row[23] == attribution_row(f.domain)[4]);
    assert(flow_attribution_of(row) == Some(f.domain));
    assert(flow_of(row)->0 =~= f);
}

/// The state of a stored flow reads back from its columns.
pub proof fn state_row_reads_back(f: crate::domain::FlowView)
    requires
        f.upload_bytes <= i64::MAX,
        f.download_bytes <= i64::MAX,
        f.packet_count <= i64::MAX,
    ensures
        crate::storage::stored_state(
            seq![
                crate::sql::SqlView::Integer(f.upload_bytes as i64),
                crate::sql::SqlView::Integer(f.download_bytes as i64),
                crate::sql::SqlView::Integer(f.packet_count as i64),
                crate::sql::SqlView::Integer(f.last_seen),
            ] + attribution_row(f.domain),
        ) == Ok::<crate::storage::StoredView, crate::sql::ErrorView>(
            crate::storage::StoredView {
                counters: crate::storage::counters_of(f),
                last_seen: f.last_seen,
                domain: f.domain,
            },
        ),
{
    let row = seq![
        crate::sql::SqlView::Integer(f.upload_bytes as i64),
        crate::sql::SqlView::Integer(f.download_bytes as i64),
        crate::sql::SqlView::Integer(f.packet_count as i64),
        crate::sql::SqlView::Integer(f.last_seen),
    ] + attribution_row(f.domain);
    if let Some(a) = f.domain {
        a.source.text_round_trips(a.source.text());
        a.confidence.text_round_trips(a.confidence.text());
    }
    assert(row[4] == attribution_row(f.domain)[0]);
    assert(row[5] == attribution_row(f.domain)[1]);
    assert(row[6] == attribution_row(f.domain)[2]);
    assert(row[7] == attribution_row(f.domain)[3]);
    assert(row[8] == attribution_row(f.domain)[4]);
    assert(crate::storage::attribution_columns(row, 4) == Some(f.domain));
}

} // verus!
