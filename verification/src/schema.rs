//! The database schema and how older databases are brought up to it.
use vstd::prelude::*;
use vstd::string::*;

use crate::sql::StorageError;
use crate::text::push_decimal_signed;

verus! {

/// The version of the schema that this library works with.
pub const CURRENT_SCHEMA_VERSION: i32 = 3;

/// Rows may not refer to what is not there.
pub const ENABLE_FOREIGN_KEYS: &'static str = "PRAGMA foreign_keys = ON;";

/// The first schema.
pub const SCHEMA_V1: &'static str = r#"
CREATE TABLE IF NOT EXISTS devices (
    mac_address   TEXT PRIMARY KEY NOT NULL,
    display_name  TEXT,
    current_ip    TEXT,
    updated_at_ms INTEGER NOT NULL
);
CREATE TABLE IF NOT EXISTS flows (
    flow_id                TEXT PRIMARY KEY NOT NULL,
    first_seen             INTEGER NOT NULL,
    last_seen              INTEGER NOT NULL,
    protocol               TEXT NOT NULL,
    direction              TEXT NOT NULL,
    lan_interface          TEXT NOT NULL,
    wan_interface          TEXT NOT NULL,
    client_mac             TEXT NOT NULL,
    client_ip              TEXT NOT NULL,
    client_port            INTEGER NOT NULL,
    destination_ip         TEXT NOT NULL,
    destination_port       INTEGER NOT NULL,
    nat_source_ip          TEXT,
    nat_source_port        INTEGER,
    nat_destination_ip     TEXT,
    nat_destination_port   INTEGER,
    upload_bytes           INTEGER NOT NULL,
    download_bytes         INTEGER NOT NULL,
    packet_count           INTEGER NOT NULL,
    domain                 TEXT,
    domain_source          TEXT,
    domain_confidence      TEXT,
    domain_associated_at   INTEGER,
    domain_expires_at      INTEGER,
    connection_state       TEXT NOT NULL,
    FOREIGN KEY (client_mac) REFERENCES devices(mac_address)
);
CREATE INDEX IF NOT EXISTS idx_flows_client_mac_last_seen
    ON flows(client_mac, last_seen DESC);
CREATE INDEX IF NOT EXISTS idx_flows_last_seen
    ON flows(last_seen);
CREATE TABLE IF NOT EXISTS device_minute_stats (
    mac_address    TEXT NOT NULL,
    minute_ms      INTEGER NOT NULL,
    upload_bytes   INTEGER NOT NULL,
    download_bytes INTEGER NOT NULL,
    PRIMARY KEY (mac_address, minute_ms)
);
CREATE TABLE IF NOT EXISTS domain_minute_stats (
    mac_address    TEXT NOT NULL,
    domain         TEXT NOT NULL,
    minute_ms      INTEGER NOT NULL,
    upload_bytes   INTEGER NOT NULL,
    download_bytes INTEGER NOT NULL,
    domain_source  TEXT NOT NULL,
    confidence     TEXT NOT NULL,
    PRIMARY KEY (mac_address, domain, minute_ms)
);
CREATE INDEX IF NOT EXISTS idx_device_minute_stats_minute
    ON device_minute_stats(minute_ms);
CREATE INDEX IF NOT EXISTS idx_domain_minute_stats_minute
    ON domain_minute_stats(minute_ms);
CREATE TABLE IF NOT EXISTS local_accounts (
    username      TEXT PRIMARY KEY NOT NULL,
    password_hash TEXT NOT NULL,
    created_at_ms INTEGER NOT NULL
);
"#;

/// An index that pages of flows can follow.
pub const SCHEMA_V2: &'static str = r#"
DROP INDEX IF EXISTS idx_flows_client_mac_last_seen;
CREATE INDEX IF NOT EXISTS idx_flows_client_mac_last_seen_flow_id
    ON flows(client_mac, last_seen DESC, flow_id DESC);
"#;

/// The ledger of what flows have contributed.
pub const SCHEMA_V3: &'static str = r#"
CREATE TABLE IF NOT EXISTS flow_minute_contributions (
    flow_id          TEXT NOT NULL,
    mac_address      TEXT NOT NULL,
    minute_ms        INTEGER NOT NULL,
    upload_bytes     INTEGER NOT NULL,
    download_bytes   INTEGER NOT NULL,
    domain           TEXT,
    domain_source    TEXT,
    confidence       TEXT,
    associated_at    INTEGER,
    expires_at       INTEGER,
    PRIMARY KEY (flow_id, minute_ms),
    FOREIGN KEY (flow_id) REFERENCES flows(flow_id) ON DELETE CASCADE
);
CREATE INDEX IF NOT EXISTS idx_flow_minute_contributions_minute
    ON flow_minute_contributions(minute_ms);
"#;

/// The batches that bring a database of some version up to date, in order.
pub open spec fn batches_from(version: i32) -> Seq<Seq<char>> {
    if version < 1 {
        seq![SCHEMA_V1@, SCHEMA_V2@, SCHEMA_V3@]
    } else if version < 2 {
        seq![SCHEMA_V2@, SCHEMA_V3@]
    } else if version < 3 {
        seq![SCHEMA_V3@]
    } else {
        Seq::<Seq<char>>::empty()
    }
}

/// The views of a list of batches.
pub open spec fn batch_views(s: Seq<&'static str>) -> Seq<Seq<char>> {
    s.map_values(|b: &'static str| b@)
}

/// The message for a database that is newer than this library.
pub open spec fn unsupported(version: i32) -> Seq<char> {
    "database schema version "@ + crate::text::decimal_signed(version as int)
        + " is newer than supported version "@ + crate::text::decimal_signed(3)
}

/// Decides how a database is brought up to date. All batches and the new version number belong in
/// one transaction, so that a failed migration leaves nothing behind.
pub fn migrate(version: i32) -> (r: Result<Vec<&'static str>, StorageError>)
    ensures
        match r {
            Ok(batches) => version <= 3 && batch_views(batches@) == batches_from(version),
            Err(e) => version > 3 && e@ == crate::sql::ErrorView::UnsupportedSchema(
                unsupported(version),
            ),
        },
{
    if version > CURRENT_SCHEMA_VERSION {
        return Err(unsupported_schema_error(version));
    }
    let mut out: Vec<&'static str> = Vec::new();
    if version < 1 {
        out.push(SCHEMA_V1);
    }
    if version < 2 {
        out.push(SCHEMA_V2);
    }
    if version < 3 {
        out.push(SCHEMA_V3);
    }
    proof {
        assert(batch_views(out@) =~= batches_from(version));
    }
    Ok(out)
}

fn unsupported_schema_error(version: i32) -> (r: StorageError)
    ensures
        r@ == crate::sql::ErrorView::UnsupportedSchema(unsupported(version)),
{
    let mut message = "database schema version ".to_owned();
    push_decimal_signed(&mut message, version as i64);
    message.append(" is newer than supported version ");
    push_decimal_signed(&mut message, CURRENT_SCHEMA_VERSION as i64);
    StorageError::UnsupportedSchema(message)
}

/// Migrating from a version takes effect as migrating from the one before it does, without what
/// that version has already.
pub proof fn later_versions_need_less(version: i32)
    requires
        0 <= version < 3,
    ensures
        batches_from(version).drop_first() == batches_from((version + 1) as i32),
{
    assert(batches_from(version).drop_first() =~= batches_from((version + 1) as i32));
}

} // verus!
