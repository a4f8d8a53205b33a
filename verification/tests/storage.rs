use routescope::api;
use routescope::auth::AuthService;
use routescope::collector::FlowCollector;
use routescope::cycle::run_cycle;
use routescope::dns::{DnsAttributionCache, DnsObservationQueue};
use routescope::domain::{
    ConnectionState, DataDeletionResult, Device, DeviceFlowSummary, DomainAttribution,
    DomainConfidence, DomainSource, Flow, FlowDirection, FlowPageAnchor, FlowPageDirection,
    ResolvedDomainBinding,
};
use routescope::pages::device_page;
use routescope::paging::{
    cursor_bytes, cursor_text, device_key, FlowQueryError, FlowWindow, DEFAULT_FLOW_PAGE_LIMIT,
    MAX_FLOW_PAGE_LIMIT,
};
use routescope::repository::SqliteRepository;
use routescope::schema::{CURRENT_SCHEMA_VERSION, ENABLE_FOREIGN_KEYS};
use routescope::service::ObservationService;
use routescope::session::{Rows, SqlDriver};
use routescope::simulator::SimulatedCollector;
use routescope::sql::{Command, SqlValue, StorageError};
use routescope::state::CollectorHealthTracker;
use routescope::storage::RouteScopeRepository;
use rusqlite::types::{Value, ValueRef};
use rusqlite::Connection;
use std::sync::{Arc, Mutex};

struct Driver {
    conn: Arc<Mutex<Connection>>,
}

fn failure(error: rusqlite::Error) -> StorageError {
    StorageError::Database(error.to_string())
}

fn values(command: &Command) -> Vec<Value> {
    command
        .params
        .iter()
        .map(|value| match value {
            SqlValue::Integer(n) => Value::Integer(*n),
            SqlValue::Text(text) => Value::Text(text.clone()),
            SqlValue::Null | SqlValue::Other => Value::Null,
        })
        .collect()
}

fn column(value: ValueRef<'_>) -> SqlValue {
    match value {
        ValueRef::Null => SqlValue::Null,
        ValueRef::Integer(n) => SqlValue::Integer(n),
        ValueRef::Text(text) => SqlValue::Text(String::from_utf8_lossy(text).into_owned()),
        _ => SqlValue::Other,
    }
}

impl SqlDriver for Driver {
    fn query(&self, command: &Command) -> Result<Rows, StorageError> {
        let conn = self.conn.lock().unwrap();
        let mut statement = conn.prepare(&command.sql).map_err(failure)?;
        let width = statement.column_count();
        let mut rows = statement
            .query(rusqlite::params_from_iter(values(command)))
            .map_err(failure)?;
        let mut out = Vec::new();
        while let Some(row) = rows.next().map_err(failure)? {
            let mut columns = Vec::new();
            for i in 0..width {
                columns.push(column(row.get_ref(i).map_err(failure)?));
            }
            out.push(columns);
        }
        Ok(out)
    }

    fn execute(&mut self, command: &Command) -> Result<usize, StorageError> {
        let conn = self.conn.lock().unwrap();
        conn.execute(&command.sql, rusqlite::params_from_iter(values(command)))
            .map_err(failure)
    }

    fn batch(&mut self, sql: &str) -> Result<(), StorageError> {
        self.conn.lock().unwrap().execute_batch(sql).map_err(failure)
    }
}

fn configure(conn: &Connection) {
    conn.execute_batch(ENABLE_FOREIGN_KEYS).unwrap();
}

fn open_with_connection() -> (SqliteRepository<Driver>, Arc<Mutex<Connection>>) {
    let conn = Connection::open_in_memory().unwrap();
    configure(&conn);
    let shared = Arc::new(Mutex::new(conn));
    let mut repo = SqliteRepository::new(Driver { conn: Arc::clone(&shared) });
    repo.migrate().unwrap();
    (repo, shared)
}

fn open_in_memory() -> SqliteRepository<Driver> {
    open_with_connection().0
}

fn sample_flow(flow_id: &str, mac: &str, last_seen: i64) -> Flow {
    Flow {
        flow_id: flow_id.to_string(),
        first_seen: last_seen - 1_000,
        last_seen,
        protocol: "tcp".to_string(),
        direction: FlowDirection::Bidirectional,
        lan_interface: "br-lan".to_string(),
        wan_interface: "eth0".to_string(),
        client_mac: mac.to_string(),
        client_ip: "192.168.1.10".to_string(),
        client_port: 51_234,
        destination_ip: "93.184.216.34".to_string(),
        destination_port: 443,
        nat_source_ip: Some("203.0.113.10".to_string()),
        nat_source_port: Some(40_001),
        nat_destination_ip: Some("93.184.216.34".to_string()),
        nat_destination_port: Some(443),
        upload_bytes: 1_024,
        download_bytes: 256,
        packet_count: 12,
        domain: Some(DomainAttribution {
            domain: "example.com".to_string(),
            source: DomainSource::Dns,
            confidence: DomainConfidence::High,
            associated_at: last_seen - 2_000,
            expires_at: Some(last_seen + 60_000),
        }),
        connection_state: ConnectionState::Established,
    }
}

fn all_flows(repo: &SqliteRepository<Driver>, mac: &str) -> Vec<Flow> {
    repo.list_flow_page(mac, i64::MIN, None, FlowPageDirection::Older, usize::MAX)
        .unwrap()
}

#[test]
fn upsert_and_find_device_by_mac() {
    let mut repo = open_in_memory();
    let device = Device {
        mac_address: "aa:bb:cc:dd:ee:ff".to_string(),
        display_name: Some("Laptop".to_string()),
        current_ip: Some("192.168.1.10".to_string()),
    };

    repo.upsert_device(&device).unwrap();

    let found = repo.find_device("aa:bb:cc:dd:ee:ff").unwrap().unwrap();
    assert_eq!(found, device);
    assert_eq!(repo.list_devices().unwrap().len(), 1);
}

#[test]
fn migration_records_supported_schema_version() {
    let (_repo, shared) = open_with_connection();
    let version: i32 = {
        let conn = shared.lock().unwrap();
        conn.pragma_query_value(None, "user_version", |row| row.get(0))
            .unwrap()
    };
    assert_eq!(version, CURRENT_SCHEMA_VERSION);
}

#[test]
fn version_one_database_migrates_to_composite_flow_index() {
    let conn = Connection::open_in_memory().unwrap();
    configure(&conn);
    conn.execute_batch(
        r#"
    CREATE TABLE flows (
      flow_id TEXT PRIMARY KEY NOT NULL,
      client_mac TEXT NOT NULL,
      last_seen INTEGER NOT NULL
    );
    CREATE INDEX idx_flows_client_mac_last_seen
      ON flows(client_mac, last_seen DESC);
    PRAGMA user_version = 1;
    "#,
    )
    .unwrap();
    let shared = Arc::new(Mutex::new(conn));
    let mut repo = SqliteRepository::new(Driver { conn: Arc::clone(&shared) });

    repo.migrate().unwrap();

    let conn = shared.lock().unwrap();
    let version: i32 = conn
        .pragma_query_value(None, "user_version", |row| row.get(0))
        .unwrap();
    assert_eq!(version, CURRENT_SCHEMA_VERSION);
    let old_exists = conn
        .prepare(
            "SELECT 1 FROM sqlite_master WHERE type = 'index' AND name = \
            'idx_flows_client_mac_last_seen'",
        )
        .unwrap()
        .exists([])
        .unwrap();
    let new_sql: String = conn
        .query_row(
            "SELECT sql FROM sqlite_master WHERE type = 'index' AND name = \
            'idx_flows_client_mac_last_seen_flow_id'",
            [],
            |row| row.get(0),
        )
        .unwrap();
    assert!(!old_exists);
    assert!(new_sql.contains("client_mac, last_seen DESC, flow_id DESC"));
    let contributions_exist = conn
        .prepare(
            "SELECT 1 FROM sqlite_master WHERE type = 'table' AND name = \
            'flow_minute_contributions'",
        )
        .unwrap()
        .exists([])
        .unwrap();
    assert!(contributions_exist);
}

#[test]
fn flow_pages_use_stable_time_and_id_boundaries() {
    let mut repo = open_in_memory();
    let mac = "aa:bb:cc:dd:ee:ff";
    for (id, last_seen) in [
        ("same-a", 100_000),
        ("same-c", 100_000),
        ("same-b", 100_000),
        ("older-b", 90_000),
        ("older-a", 90_000),
        ("expired", 70_000),
    ] {
        repo.upsert_flow(&sample_flow(id, mac, last_seen)).unwrap();
    }
    repo.upsert_flow(&sample_flow("other-device", "00:00:00:00:00:01", 110_000))
        .unwrap();

    let first = repo
        .list_flow_page(mac, 80_000, None, FlowPageDirection::Older, 2)
        .unwrap();
    assert_eq!(
        first.iter()
            .map(|flow| flow.flow_id.as_str())
            .collect::<Vec<_>>(),
        ["same-c", "same-b"]
    );

    let older = repo
        .list_flow_page(
            mac,
            80_000,
            Some(&FlowPageAnchor {
                last_seen: first[1].last_seen,
                flow_id: first[1].flow_id.clone(),
            }),
            FlowPageDirection::Older,
            3,
        )
        .unwrap();
    assert_eq!(
        older.iter()
            .map(|flow| flow.flow_id.as_str())
            .collect::<Vec<_>>(),
        ["same-a", "older-b", "older-a"]
    );

    let newer = repo
        .list_flow_page(
            mac,
            80_000,
            Some(&FlowPageAnchor {
                last_seen: older[0].last_seen,
                flow_id: older[0].flow_id.clone(),
            }),
            FlowPageDirection::Newer,
            2,
        )
        .unwrap();
    assert_eq!(
        newer.iter()
            .map(|flow| flow.flow_id.as_str())
            .collect::<Vec<_>>(),
        ["same-b", "same-c"]
    );
}

#[test]
fn recent_flow_summary_is_computed_in_sql_with_cutoff() {
    let mut repo = open_in_memory();
    let mac = "aa:bb:cc:dd:ee:ff";
    let mut first = sample_flow("summary-first", mac, 100_000);
    first.upload_bytes = 10;
    first.download_bytes = 20;
    let mut second = sample_flow("summary-second", mac, 110_000);
    second.upload_bytes = 30;
    second.download_bytes = 40;
    repo.upsert_flows(&vec![first, second]).unwrap();
    repo.upsert_flow(&sample_flow("summary-old", mac, 80_000))
        .unwrap();

    assert_eq!(
        repo.summarize_recent_flows(mac, 90_000).unwrap(),
        DeviceFlowSummary {
            upload_bytes: 40,
            download_bytes: 60,
            flow_count: 2,
            last_seen: Some(110_000),
        }
    );
}

#[test]
fn failed_migration_transaction_does_not_bump_schema_version() {
    let conn = Connection::open_in_memory().unwrap();
    configure(&conn);
    {
        let tx = conn.unchecked_transaction().unwrap();
        tx.execute_batch(
            r#"
    CREATE TABLE devices (
      mac_address TEXT PRIMARY KEY NOT NULL,
      display_name TEXT,
      current_ip TEXT,
      updated_at_ms INTEGER NOT NULL
    );
    "#,
        )
        .unwrap();
        tx.pragma_update(None, "user_version", CURRENT_SCHEMA_VERSION)
            .unwrap();
        // Simulate a later DDL statement failing before commit.
        assert!(
    tx.execute_batch("CREATE TABLE devices (mac_address TEXT PRIMARY KEY NOT NULL);")
      .is_err()
  );
    }

    let version: i32 = conn
        .pragma_query_value(None, "user_version", |row| row.get(0))
        .unwrap();
    assert_eq!(version, 0);
    let devices_exists: bool = conn
  .prepare("SELECT 1 FROM sqlite_master WHERE type = 'table' AND name = 'devices'")
  .unwrap()
  .exists([])
  .unwrap();
    assert!(!devices_exists);
}

#[test]
fn batch_upsert_is_atomic_when_one_flow_is_invalid() {
    let mut repo = open_in_memory();
    let valid = sample_flow("batch-valid", "aa:bb:cc:dd:ee:01", 10_000);
    let mut invalid = sample_flow("batch-invalid", "aa:bb:cc:dd:ee:02", 10_000);
    invalid.client_mac.clear();

    assert!(repo.upsert_flows(&vec![valid, invalid]).is_err());
    assert!(repo.list_devices().unwrap().is_empty());
}

#[test]
fn manual_device_name_can_be_updated_and_cleared() {
    let mut repo = open_in_memory();
    let mac = "aa:bb:cc:dd:ee:ff";
    repo.upsert_device(&Device {
        mac_address: mac.to_owned(),
        display_name: None,
        current_ip: Some("192.168.1.10".to_owned()),
    })
    .unwrap();

    assert!(repo
        .update_device_display_name(mac, Some("Living Room TV"))
        .unwrap());
    assert_eq!(
        repo.find_device(mac)
            .unwrap()
            .unwrap()
            .display_name
            .as_deref(),
        Some("Living Room TV")
    );
    assert!(repo.update_device_display_name(mac, None).unwrap());
    assert_eq!(repo.find_device(mac).unwrap().unwrap().display_name, None);
    assert!(!repo
        .update_device_display_name("ff:ff:ff:ff:ff:ff", Some("missing"))
        .unwrap());
}

#[test]
fn device_identity_is_stable_when_ip_changes() {
    let mut repo = open_in_memory();
    let mac = "aa:bb:cc:dd:ee:ff";

    repo.upsert_device(&Device {
        mac_address: mac.to_string(),
        display_name: Some("Phone".to_string()),
        current_ip: Some("192.168.1.20".to_string()),
    })
    .unwrap();

    repo.upsert_device(&Device {
        mac_address: mac.to_string(),
        display_name: Some("Phone".to_string()),
        current_ip: Some("192.168.1.21".to_string()),
    })
    .unwrap();

    let devices = repo.list_devices().unwrap();
    assert_eq!(devices.len(), 1);
    assert_eq!(devices[0].current_ip.as_deref(), Some("192.168.1.21"));
}

#[test]
fn flow_ingestion_preserves_manual_device_name() {
    let mut repo = open_in_memory();
    let mac = "aa:bb:cc:dd:ee:ff";

    repo.upsert_device(&Device {
        mac_address: mac.to_string(),
        display_name: Some("Living Room TV".to_string()),
        current_ip: Some("192.168.1.20".to_string()),
    })
    .unwrap();

    repo.upsert_flow(&sample_flow("flow-1", mac, 10_000))
        .unwrap();

    let device = repo.find_device(mac).unwrap().unwrap();
    assert_eq!(device.display_name.as_deref(), Some("Living Room TV"));
    assert_eq!(device.current_ip.as_deref(), Some("192.168.1.10"));
}

#[test]
fn upsert_flow_round_trips_with_domain_attribution() {
    let mut repo = open_in_memory();
    let flow = sample_flow("flow-1", "aa:bb:cc:dd:ee:ff", 10_000);

    repo.upsert_flow(&flow).unwrap();
    let loaded = all_flows(&repo, "aa:bb:cc:dd:ee:ff");

    assert_eq!(loaded.len(), 1);
    assert_eq!(loaded[0], flow);
}

#[test]
fn delete_expired_flows_keeps_recent_window() {
    let mut repo = open_in_memory();
    let mac = "aa:bb:cc:dd:ee:ff";
    let now = 100_000_000i64;

    repo.upsert_flow(&sample_flow("old", mac, now - 25 * 3_600_000))
        .unwrap();
    repo.upsert_flow(&sample_flow("new", mac, now - 3_600_000))
        .unwrap();

    let (deleted_flows, _) = repo.delete_expired_data(now, 24, 30).unwrap();
    assert_eq!(deleted_flows, 1);

    let remaining = all_flows(&repo, mac);
    assert_eq!(remaining.len(), 1);
    assert_eq!(remaining[0].flow_id, "new");
}

#[test]
fn delete_expired_aggregates_by_day_window() {
    let (mut repo, shared) = open_with_connection();
    let now = 100_000_000i64;
    let old_minute = now - 31 * 86_400_000;
    let new_minute = now - 86_400_000;

    {
        let conn = shared.lock().unwrap();
        conn.execute(
            r#"
    INSERT INTO device_minute_stats
    (mac_address, minute_ms, upload_bytes, download_bytes)
    VALUES ('aa:bb:cc:dd:ee:ff', ?1, 10, 20)
    "#,
            [old_minute],
        )
        .unwrap();
        conn.execute(
            r#"
    INSERT INTO device_minute_stats
    (mac_address, minute_ms, upload_bytes, download_bytes)
    VALUES ('aa:bb:cc:dd:ee:ff', ?1, 30, 40)
    "#,
            [new_minute],
        )
        .unwrap();
    }

    let (_, deleted_aggs) = repo.delete_expired_data(now, 24, 30).unwrap();
    assert_eq!(deleted_aggs, 1);

    let count: i64 = {
        let conn = shared.lock().unwrap();
        conn.query_row("SELECT COUNT(*) FROM device_minute_stats", [], |r| r.get(0))
            .unwrap()
    };
    assert_eq!(count, 1);
}

#[test]
fn upsert_flow_accumulates_minute_stats_by_delta() {
    let mut repo = open_in_memory();
    let mac = "aa:bb:cc:dd:ee:ff";
    let last_seen = 125_000i64; // minute bucket 120_000
    let mut flow = sample_flow("flow-1", mac, last_seen);
    flow.upload_bytes = 1_000;
    flow.download_bytes = 2_000;

    repo.upsert_flow(&flow).unwrap();

    flow.upload_bytes = 1_500;
    flow.download_bytes = 2_500;
    repo.upsert_flow(&flow).unwrap();

    let stats = repo.list_device_minute_stats(mac, 0).unwrap();
    assert_eq!(stats.len(), 1);
    assert_eq!(stats[0].minute_ms, 120_000);
    assert_eq!(stats[0].upload_bytes, 1_500);
    assert_eq!(stats[0].download_bytes, 2_500);

    let domains = repo.list_domain_traffic_top(mac, 0, 10).unwrap();
    assert_eq!(domains.len(), 1);
    assert_eq!(domains[0].domain, "example.com");
    assert_eq!(domains[0].total_bytes, 4_000);
    assert_eq!(domains[0].confidence, DomainConfidence::High);
    assert_eq!(domains[0].source, DomainSource::Dns);
}

#[test]
fn domain_minute_query_filters_domain_and_orders_by_minute() {
    let mut repo = open_in_memory();
    let mac = "aa:bb:cc:dd:ee:ff";

    let mut later = sample_flow("trend-later", mac, 185_000);
    later.upload_bytes = 300;
    later.download_bytes = 700;
    repo.upsert_flow(&later).unwrap();

    let mut other = sample_flow("trend-other", mac, 155_000);
    other.domain = Some(DomainAttribution {
        domain: "other.example".to_owned(),
        source: DomainSource::Sni,
        confidence: DomainConfidence::Low,
        associated_at: 154_000,
        expires_at: Some(300_000),
    });
    repo.upsert_flow(&other).unwrap();

    let mut earlier = sample_flow("trend-earlier", mac, 125_000);
    earlier.upload_bytes = 100;
    earlier.download_bytes = 200;
    repo.upsert_flow(&earlier).unwrap();

    let stats = repo
        .list_domain_minute_stats(mac, "example.com", 120_000)
        .unwrap();
    assert_eq!(stats.len(), 2);
    assert_eq!(stats[0].minute_ms, 120_000);
    assert_eq!(stats[0].upload_bytes, 100);
    assert_eq!(stats[0].download_bytes, 200);
    assert_eq!(stats[1].minute_ms, 180_000);
    assert_eq!(stats[1].upload_bytes, 300);
    assert_eq!(stats[1].download_bytes, 700);
    assert!(stats.iter().all(|stat| stat.mac_address == mac));
    assert!(stats.iter().all(|stat| stat.domain == "example.com"));
    assert!(stats.iter().all(|stat| stat.source == DomainSource::Dns));
    assert!(stats
        .iter()
        .all(|stat| stat.confidence == DomainConfidence::High));
}

#[test]
fn duplicate_flow_snapshot_is_idempotent() {
    let mut repo = open_in_memory();
    let mac = "aa:bb:cc:dd:ee:ff";
    let flow = sample_flow("flow-duplicate", mac, 125_000);

    repo.upsert_flow(&flow).unwrap();
    repo.upsert_flow(&flow).unwrap();

    let stats = repo.list_device_minute_stats(mac, 0).unwrap();
    assert_eq!(stats.len(), 1);
    assert_eq!(stats[0].upload_bytes, flow.upload_bytes);
    assert_eq!(stats[0].download_bytes, flow.download_bytes);
}

#[test]
fn delayed_dns_binding_backfills_each_recorded_minute_once() {
    let mut repo = open_in_memory();
    let mac = "aa:bb:cc:dd:ee:ff";
    let mut flow = sample_flow("flow-delayed-domain", mac, 65_000);
    flow.first_seen = 60_000;
    flow.upload_bytes = 100;
    flow.download_bytes = 200;
    flow.packet_count = 3;
    flow.domain = None;
    repo.upsert_flow(&flow).unwrap();

    flow.last_seen = 125_000;
    flow.upload_bytes = 150;
    flow.download_bytes = 260;
    flow.packet_count = 5;
    repo.upsert_flow(&flow).unwrap();

    let bindings = vec![ResolvedDomainBinding {
        client_mac: mac.to_owned(),
        target_ip: flow.destination_ip.clone(),
        attribution: DomainAttribution {
            domain: "late.example".to_owned(),
            source: DomainSource::Dns,
            confidence: DomainConfidence::High,
            associated_at: 62_000,
            expires_at: Some(180_000),
        },
    }];

    assert_eq!(
        repo.backfill_domain_bindings(&bindings)
            .unwrap(),
        1
    );
    assert_eq!(
        repo.backfill_domain_bindings(&bindings)
            .unwrap(),
        0
    );

    let stats = repo
        .list_domain_minute_stats(mac, "late.example", 0)
        .unwrap();
    assert_eq!(stats.len(), 2);
    assert_eq!(
        (
            stats[0].minute_ms,
            stats[0].upload_bytes,
            stats[0].download_bytes
        ),
        (60_000, 100, 200)
    );
    assert_eq!(
        (
            stats[1].minute_ms,
            stats[1].upload_bytes,
            stats[1].download_bytes
        ),
        (120_000, 50, 60)
    );
    let stored = all_flows(&repo, mac);
    assert_eq!(stored[0].domain.as_ref().unwrap().domain, "late.example");

    let device_stats = repo.list_device_minute_stats(mac, 0).unwrap();
    assert_eq!(device_stats[0].upload_bytes, 100);
    assert_eq!(device_stats[1].upload_bytes, 50);
}

#[test]
fn delayed_dns_binding_reassigns_low_confidence_sni_aggregate() {
    let mut repo = open_in_memory();
    let mac = "aa:bb:cc:dd:ee:ff";
    let mut flow = sample_flow("flow-sni-backfill", mac, 125_000);
    flow.first_seen = 120_000;
    flow.upload_bytes = 400;
    flow.download_bytes = 600;
    flow.domain = Some(DomainAttribution {
        domain: "cdn-guess.example".to_owned(),
        source: DomainSource::Sni,
        confidence: DomainConfidence::Low,
        associated_at: 120_000,
        expires_at: None,
    });
    repo.upsert_flow(&flow).unwrap();

    let binding = ResolvedDomainBinding {
        client_mac: mac.to_owned(),
        target_ip: flow.destination_ip.clone(),
        attribution: DomainAttribution {
            domain: "exact.example".to_owned(),
            source: DomainSource::Dns,
            confidence: DomainConfidence::High,
            associated_at: 121_000,
            expires_at: Some(180_000),
        },
    };
    assert_eq!(repo.backfill_domain_bindings(&vec![binding]).unwrap(), 1);

    assert!(repo
        .list_domain_minute_stats(mac, "cdn-guess.example", 0)
        .unwrap()
        .is_empty());
    let exact = repo
        .list_domain_minute_stats(mac, "exact.example", 0)
        .unwrap();
    assert_eq!(exact.len(), 1);
    assert_eq!(exact[0].upload_bytes, 400);
    assert_eq!(exact[0].download_bytes, 600);
    assert_eq!(exact[0].source, DomainSource::Dns);
    assert_eq!(exact[0].confidence, DomainConfidence::High);
}

#[test]
fn delayed_dns_binding_respects_device_target_and_time_interval() {
    let mut repo = open_in_memory();
    let mac = "aa:bb:cc:dd:ee:ff";
    let mut matching = sample_flow("matching", mac, 125_000);
    matching.first_seen = 120_000;
    matching.domain = None;
    let mut old = sample_flow("old", mac, 100_000);
    old.first_seen = 90_000;
    old.domain = None;
    let mut other_device = sample_flow("other-device", "00:00:00:00:00:01", 125_000);
    other_device.first_seen = 120_000;
    other_device.domain = None;
    let mut other_target = sample_flow("other-target", mac, 125_000);
    other_target.first_seen = 120_000;
    other_target.destination_ip = "203.0.113.99".to_owned();
    other_target.domain = None;
    repo.upsert_flows(&vec![matching, old, other_device, other_target])
        .unwrap();

    let binding = ResolvedDomainBinding {
        client_mac: mac.to_owned(),
        target_ip: "93.184.216.34".to_owned(),
        attribution: DomainAttribution {
            domain: "isolated.example".to_owned(),
            source: DomainSource::Dns,
            confidence: DomainConfidence::High,
            associated_at: 110_000,
            expires_at: Some(180_000),
        },
    };
    assert_eq!(repo.backfill_domain_bindings(&vec![binding]).unwrap(), 1);

    let attributed = all_flows(&repo, mac)
        .into_iter()
        .filter(|flow| flow.domain.is_some())
        .map(|flow| flow.flow_id)
        .collect::<Vec<_>>();
    assert_eq!(attributed, ["matching"]);
    assert!(all_flows(&repo, "00:00:00:00:00:01")[0].domain.is_none());
}

#[test]
fn repeated_snapshot_without_domain_preserves_persisted_dns_attribution() {
    let mut repo = open_in_memory();
    let mac = "aa:bb:cc:dd:ee:ff";
    let mut flow = sample_flow("flow-domain-preserved", mac, 125_000);
    repo.upsert_flow(&flow).unwrap();

    flow.domain = None;
    flow.upload_bytes += 10;
    flow.download_bytes += 20;
    repo.upsert_flow(&flow).unwrap();

    let stored = all_flows(&repo, mac);
    assert_eq!(stored[0].domain.as_ref().unwrap().domain, "example.com");
    let stats = repo
        .list_domain_minute_stats(mac, "example.com", 0)
        .unwrap();
    assert_eq!(stats[0].upload_bytes, flow.upload_bytes);
    assert_eq!(stats[0].download_bytes, flow.download_bytes);
}

#[test]
fn device_data_deletion_is_isolated_and_keeps_admin_account() {
    let mut repo = open_in_memory();
    let selected = "aa:bb:cc:dd:ee:ff";
    let other = "00:00:00:00:00:01";
    repo.insert_local_account_if_missing("admin", "hash")
        .unwrap();
    repo.upsert_flow(&sample_flow("delete-device", selected, 125_000))
        .unwrap();
    repo.upsert_flow(&sample_flow("keep-device", other, 125_000))
        .unwrap();

    let result = repo.delete_device_data(selected).unwrap().unwrap();
    assert_eq!(result.devices_deleted, 1);
    assert_eq!(result.flows_deleted, 1);
    assert_eq!(result.device_minutes_deleted, 1);
    assert_eq!(result.domain_minutes_deleted, 1);
    assert_eq!(result.contributions_deleted, 1);
    assert!(repo.find_device(selected).unwrap().is_none());
    assert!(all_flows(&repo, selected).is_empty());
    assert!(repo.find_device(other).unwrap().is_some());
    assert_eq!(all_flows(&repo, other).len(), 1);
    assert_eq!(
        repo.first_local_account().unwrap(),
        Some(("admin".to_owned(), "hash".to_owned()))
    );
    assert!(repo.delete_device_data(selected).unwrap().is_none());
}

#[test]
fn domain_deletion_redacts_attribution_without_changing_device_totals() {
    let mut repo = open_in_memory();
    let selected = "aa:bb:cc:dd:ee:ff";
    let other = "00:00:00:00:00:01";
    let selected_flow = sample_flow("selected-domain", selected, 125_000);
    let other_device_flow = sample_flow("other-device-domain", other, 125_000);
    let mut other_domain_flow = sample_flow("other-domain", selected, 185_000);
    other_domain_flow.domain.as_mut().unwrap().domain = "other.example".to_owned();
    repo.upsert_flows(&vec![selected_flow, other_device_flow, other_domain_flow])
        .unwrap();
    let device_totals = repo.list_device_minute_stats(selected, 0).unwrap();

    let result = repo
        .delete_domain_data(Some(selected), "example.com")
        .unwrap();
    assert_eq!(result.flows_redacted, 1);
    assert_eq!(result.domain_minutes_deleted, 1);
    assert_eq!(result.contributions_deleted, 1);
    assert_eq!(
        repo.list_device_minute_stats(selected, 0).unwrap(),
        device_totals
    );
    assert!(repo
        .list_domain_minute_stats(selected, "example.com", 0)
        .unwrap()
        .is_empty());
    assert_eq!(
        all_flows(&repo, selected)
            .iter()
            .find(|flow| flow.flow_id == "selected-domain")
            .unwrap()
            .domain,
        None
    );
    assert!(all_flows(&repo, other)[0].domain.is_some());
    assert!(all_flows(&repo, selected)
        .iter()
        .find(|flow| flow.flow_id == "other-domain")
        .unwrap()
        .domain
        .is_some());

    assert_eq!(
        repo.delete_domain_data(Some(selected), "example.com")
            .unwrap(),
        DataDeletionResult::default()
    );
    let global = repo.delete_domain_data(None, "example.com").unwrap();
    assert_eq!(global.flows_redacted, 1);
    assert!(all_flows(&repo, other)[0].domain.is_none());
}

#[test]
fn time_range_deletion_uses_half_open_flow_and_minute_boundaries() {
    let mut repo = open_in_memory();
    let mac = "aa:bb:cc:dd:ee:ff";
    let mut before = sample_flow("range-before", mac, 119_999);
    before.first_seen = 110_000;
    let mut at_start = sample_flow("range-start", mac, 120_000);
    at_start.first_seen = 119_000;
    let mut inside = sample_flow("range-inside", mac, 150_000);
    inside.first_seen = 140_000;
    let mut at_end = sample_flow("range-end", mac, 190_000);
    at_end.first_seen = 180_000;
    repo.upsert_flows(&vec![before, at_start, inside, at_end])
        .unwrap();

    let result = repo.delete_data_range(120_000, 180_000).unwrap();
    assert_eq!(result.flows_deleted, 2);
    assert_eq!(result.device_minutes_deleted, 1);
    assert_eq!(result.domain_minutes_deleted, 1);
    assert_eq!(result.contributions_deleted, 2);
    let remaining = all_flows(&repo, mac)
        .into_iter()
        .map(|flow| flow.flow_id)
        .collect::<Vec<_>>();
    assert_eq!(remaining, ["range-end", "range-before"]);
    assert!(repo.find_device(mac).unwrap().is_some());
    assert_eq!(
        repo.delete_data_range(120_000, 180_000).unwrap(),
        DataDeletionResult::default()
    );
}

#[test]
fn destructive_deletion_rolls_back_when_a_statement_fails() {
    let (mut repo, shared) = open_with_connection();
    let mac = "aa:bb:cc:dd:ee:ff";
    repo.upsert_flow(&sample_flow("rollback-delete", mac, 125_000))
        .unwrap();
    {
        let conn = shared.lock().unwrap();
        conn.execute_batch(
            r#"
      CREATE TRIGGER reject_domain_delete
      BEFORE DELETE ON domain_minute_stats
      BEGIN
        SELECT RAISE(ABORT, 'test deletion failure');
      END;
      "#,
        )
        .unwrap();
    }

    assert!(repo.delete_device_data(mac).is_err());
    assert!(repo.find_device(mac).unwrap().is_some());
    assert_eq!(all_flows(&repo, mac).len(), 1);
    assert_eq!(repo.list_device_minute_stats(mac, 0).unwrap().len(), 1);
    assert_eq!(
        repo.list_domain_minute_stats(mac, "example.com", 0)
            .unwrap()
            .len(),
        1
    );
}

#[test]
fn delayed_nat_enrichment_preserves_counters_and_fills_mapping() {
    let mut repo = open_in_memory();
    let mac = "aa:bb:cc:dd:ee:ff";
    let mut flow = sample_flow("flow-nat-delay", mac, 125_000);
    flow.nat_source_ip = None;
    flow.nat_source_port = None;
    flow.nat_destination_ip = None;
    flow.nat_destination_port = None;
    flow.upload_bytes = 1_000;
    flow.download_bytes = 2_000;

    repo.upsert_flow(&flow).unwrap();
    let stats_before = repo.list_device_minute_stats(mac, 0).unwrap();

    flow.nat_source_ip = Some("203.0.113.10".into());
    flow.nat_source_port = Some(40_001);
    flow.nat_destination_ip = Some("93.184.216.34".into());
    flow.nat_destination_port = Some(443);
    repo.upsert_flow(&flow).unwrap();

    let loaded = all_flows(&repo, mac);
    assert_eq!(loaded.len(), 1);
    assert_eq!(loaded[0].nat_source_port, Some(40_001));
    assert_eq!(loaded[0].nat_destination_port, Some(443));
    assert_eq!(repo.list_device_minute_stats(mac, 0).unwrap(), stats_before);
}

#[test]
fn counter_reset_is_rejected_without_overwriting_existing_snapshot() {
    let mut repo = open_in_memory();
    let mac = "aa:bb:cc:dd:ee:ff";
    let mut flow = sample_flow("flow-reset", mac, 125_000);
    flow.upload_bytes = 1_000;
    flow.download_bytes = 2_000;
    flow.packet_count = 30;

    repo.upsert_flow(&flow).unwrap();

    flow.upload_bytes = 900;
    flow.download_bytes = 2_100;
    flow.packet_count = 31;

    assert!(repo.upsert_flow(&flow).is_err());

    let stored = all_flows(&repo, mac);
    assert_eq!(stored.len(), 1);
    assert_eq!(stored[0].upload_bytes, 1_000);
    assert_eq!(stored[0].download_bytes, 2_000);
    assert_eq!(stored[0].packet_count, 30);
}

#[test]
fn domain_traffic_top_orders_by_total_bytes() {
    let mut repo = open_in_memory();
    let mac = "aa:bb:cc:dd:ee:ff";
    let now = 180_000i64;

    let mut big = sample_flow("flow-big", mac, now);
    big.domain = Some(DomainAttribution {
        domain: "big.example".to_string(),
        source: DomainSource::Dns,
        confidence: DomainConfidence::High,
        associated_at: now - 1_000,
        expires_at: Some(now + 60_000),
    });
    big.upload_bytes = 9_000;
    big.download_bytes = 1_000;
    repo.upsert_flow(&big).unwrap();

    let mut small = sample_flow("flow-small", mac, now);
    small.client_port = 51_235;
    small.domain = Some(DomainAttribution {
        domain: "small.example".to_string(),
        source: DomainSource::Sni,
        confidence: DomainConfidence::Low,
        associated_at: now - 1_000,
        expires_at: Some(now + 60_000),
    });
    small.upload_bytes = 100;
    small.download_bytes = 50;
    repo.upsert_flow(&small).unwrap();

    let top = repo.list_domain_traffic_top(mac, 0, 10).unwrap();
    assert_eq!(top.len(), 2);
    assert_eq!(top[0].domain, "big.example");
    assert_eq!(top[1].domain, "small.example");
    assert_eq!(top[1].confidence, DomainConfidence::Low);
}

#[test]
fn sqlite_repository_is_sync() {
    fn assert_sync<T: Sync>() {}
    assert_sync::<SqliteRepository<Driver>>();
}

fn bootstrap(
    repository: &mut SqliteRepository<Driver>,
    password_hash: String,
) -> AuthService {
    let stored = repository.first_local_account().unwrap();
    let (auth, account) =
        AuthService::from_repository(stored, "admin".to_owned(), Some(password_hash))
            .ok()
            .unwrap();
    if let Some((username, hash)) = account {
        assert!(repository.insert_local_account_if_missing(&username, &hash).unwrap());
    }
    auth
}

#[test]
fn repository_bootstraps_only_when_no_account_exists() {
    let mut repository = open_in_memory();
    let first_hash = AuthService::hash_password("first password").ok().unwrap();
    let auth = bootstrap(&mut repository, first_hash);
    assert!(auth.verify_credentials("admin", "first password"));

    let replacement_hash = AuthService::hash_password("replacement password").ok().unwrap();
    let auth = bootstrap(&mut repository, replacement_hash);
    assert!(auth.verify_credentials("admin", "first password"));
    assert!(!auth.verify_credentials("admin", "replacement password"));
}

#[test]
fn a_second_account_is_not_created() {
    let mut repo = open_in_memory();
    assert!(repo.insert_local_account_if_missing("admin", "hash1").unwrap());
    assert!(!repo.insert_local_account_if_missing("root", "hash2").unwrap());
    assert_eq!(
        repo.first_local_account().unwrap(),
        Some(("admin".to_owned(), "hash1".to_owned()))
    );
}

const NOW: i64 = 1_700_000_000_000;

fn flow(flow_id: &str, mac_address: &str, last_seen: i64) -> Flow {
    Flow {
        flow_id: flow_id.to_owned(),
        first_seen: last_seen.saturating_sub(1_000),
        last_seen,
        protocol: "tcp".to_owned(),
        direction: FlowDirection::Bidirectional,
        lan_interface: "br-lan".to_owned(),
        wan_interface: "eth0".to_owned(),
        client_mac: mac_address.to_owned(),
        client_ip: "192.168.1.10".to_owned(),
        client_port: 50_000,
        destination_ip: "93.184.216.34".to_owned(),
        destination_port: 443,
        nat_source_ip: None,
        nat_source_port: None,
        nat_destination_ip: None,
        nat_destination_port: None,
        upload_bytes: 100,
        download_bytes: 200,
        packet_count: 3,
        domain: None,
        connection_state: ConnectionState::Established,
    }
}

fn ids(flows: &[Flow]) -> Vec<&str> {
    flows.iter().map(|flow| flow.flow_id.as_str()).collect()
}

#[test]
fn flow_cursor_pages_round_trip_in_both_directions() {
    let mut service = ObservationService::new(open_in_memory(), 24, 30);
    let mac = "aa:bb:cc:dd:ee:ff";
    for index in 0..5 {
        service
            .repo
            .upsert_flow(&flow(
                &format!("flow-{index}"),
                mac,
                NOW.saturating_sub(index * 1_000),
            ))
            .unwrap();
    }

    let first = service
        .flow_page(mac, Some("24h"), Some(2), None, NOW)
        .unwrap();
    assert_eq!(ids(&first.items), ["flow-0", "flow-1"]);
    assert!(first.previous_cursor.is_none());

    let second = service
        .flow_page(mac, None, None, Some(first.next_cursor), NOW)
        .unwrap();
    assert_eq!(ids(&second.items), ["flow-2", "flow-3"]);
    assert!(second.next_cursor.is_some());
    assert!(second.previous_cursor.is_some());

    let returned = service
        .flow_page(mac, None, None, Some(second.previous_cursor), NOW)
        .unwrap();
    assert_eq!(returned.items, first.items);
    assert!(returned.previous_cursor.is_none());
}

#[test]
fn flow_windows_limits_and_cursor_device_are_validated() {
    let mut service = ObservationService::new(open_in_memory(), 24, 30);
    let mac = "aa:bb:cc:dd:ee:ff";
    service
        .repo
        .upsert_flow(&flow("recent", mac, NOW.saturating_sub(30 * 60 * 1_000)))
        .unwrap();
    service
        .repo
        .upsert_flow(&flow("two-hours", mac, NOW.saturating_sub(2 * 3_600_000)))
        .unwrap();

    let hour = service.flow_page(mac, Some("1h"), None, None, NOW).unwrap();
    assert_eq!(hour.items.len(), 1);
    let six_hours = service.flow_page(mac, Some("6h"), None, None, NOW).unwrap();
    assert_eq!(six_hours.items.len(), 2);
    let day = service.flow_page(mac, Some("24h"), None, None, NOW).unwrap();
    assert_eq!(day.items.len(), 2);
    let defaults = service.flow_page(mac, None, None, None, NOW).unwrap();
    assert_eq!(defaults.window, "24h");
    assert_eq!(defaults.limit, DEFAULT_FLOW_PAGE_LIMIT);
    assert!(matches!(
        service.flow_page(mac, Some("week"), None, None, NOW),
        Err(FlowQueryError::InvalidWindow)
    ));
    assert!(matches!(
        service.flow_page(mac, None, Some(0), None, NOW),
        Err(FlowQueryError::InvalidLimit)
    ));
    assert!(matches!(
        service.flow_page(mac, None, Some(MAX_FLOW_PAGE_LIMIT + 1), None, NOW),
        Err(FlowQueryError::InvalidLimit)
    ));

    let cursor = || {
        let limited = service.flow_page(mac, None, Some(1), None, NOW).unwrap();
        Some(Some(limited.next_cursor.unwrap()))
    };
    assert!(matches!(
        service.flow_page("00:00:00:00:00:01", None, None, cursor(), NOW),
        Err(FlowQueryError::CursorDeviceMismatch)
    ));
    assert!(matches!(
        service.flow_page(mac, Some("24h"), None, cursor(), NOW),
        Err(FlowQueryError::InvalidCursor)
    ));
    assert!(matches!(
        cursor_bytes("not-base64!"),
        Err(FlowQueryError::InvalidCursor)
    ));
    assert!(matches!(
        service.flow_page(mac, None, None, Some(None), NOW),
        Err(FlowQueryError::InvalidCursor)
    ));
}

#[test]
fn cursors_that_cannot_be_are_refused() {
    let mut service = ObservationService::new(open_in_memory(), 24, 30);
    let mac = "aa:bb:cc:dd:ee:ff";
    service.repo.upsert_flow(&flow("a", mac, NOW)).unwrap();
    service.repo.upsert_flow(&flow("b", mac, NOW - 1)).unwrap();
    let cursor = || {
        let page = service.flow_page(mac, None, Some(1), None, NOW).unwrap();
        page.next_cursor.unwrap()
    };
    assert_eq!(cursor().device_key, device_key(" AA:BB:CC:DD:EE:FF "));
    assert_ne!(cursor().device_key, mac);
    let mut old = cursor();
    old.version = 2;
    let mut large = cursor();
    large.limit = MAX_FLOW_PAGE_LIMIT + 1;
    let mut nameless = cursor();
    nameless.flow_id.clear();
    let mut ahead = cursor();
    ahead.last_seen = NOW + 1;
    let mut outside = cursor();
    outside.last_seen = outside.since_ms - 1;
    for (payload, message) in [
        (old, "invalid flow cursor"),
        (large, "limit must be between 1 and 500"),
        (nameless, "invalid flow cursor"),
        (ahead, "invalid flow cursor"),
        (outside, "invalid flow cursor"),
    ] {
        let error = service
            .flow_page(mac, None, None, Some(Some(payload)), NOW)
            .err()
            .unwrap();
        assert_eq!(error.message(), message);
        assert!(error.is_bad_request());
    }
    let failed = FlowQueryError::Database(StorageError::Database("locked".to_owned()));
    assert_eq!(failed.message(), "flow query failed: locked");
    assert!(!failed.is_bad_request());
    assert_eq!(FlowWindow::Hours6.as_str(), "6h");
}

#[test]
fn cursor_bytes_come_back_from_their_text() {
    let bytes = vec![0xfb, 0xff, 0xfe, 1];
    let text = cursor_text(&bytes);
    assert_eq!(text, "-__-AQ");
    assert_eq!(cursor_bytes(&text).ok().unwrap(), bytes);
    assert!(cursor_bytes("+//+AQ==").is_err());
}

#[test]
fn recent_flows_are_limited_by_the_time_for_which_they_are_kept() {
    let mut service = ObservationService::new(open_in_memory(), 1, 30);
    let mac = "aa:bb:cc:dd:ee:ff";
    service.repo.upsert_flow(&flow("old", mac, NOW - 3_600_001)).unwrap();
    service.repo.upsert_flow(&flow("new", mac, NOW - 3_600_000)).unwrap();
    assert_eq!(ids(&service.recent_flows(mac, NOW).unwrap()), ["new"]);
    assert_eq!(service.recent_flow_summary(mac, NOW).unwrap().flow_count, 1);
    assert_eq!(service.cleanup_expired_data(NOW).unwrap(), (1, 0));
    assert_eq!(service.device_traffic(mac, NOW).unwrap().len(), 1);
    assert!(service.device_domain_top(mac, NOW).unwrap().is_empty());
}

#[test]
fn requests_about_devices_are_answered() {
    let mut service = ObservationService::new(open_in_memory(), 24, 30);
    let mac = "aa:bb:cc:dd:ee:ff";
    assert!(api::list_devices(&service).unwrap().is_empty());
    assert_eq!(api::device_detail(&service, mac).err(), Some(404));
    assert_eq!(api::device_traffic(&service, mac, NOW).err(), Some(404));
    assert_eq!(api::device_flows(&service, mac, None, None, None, NOW).err(), Some(404));
    service.repo.upsert_flow(&flow("a", mac, NOW)).unwrap();
    assert_eq!(api::device_detail(&service, mac).unwrap().mac_address, mac);
    assert_eq!(api::device_traffic(&service, mac, NOW).unwrap().len(), 1);
    assert!(api::device_domains(&service, mac, NOW).unwrap().is_empty());
    assert!(api::device_domain_traffic(&service, mac, "x.example", NOW).unwrap().is_empty());
    let page = api::device_flows(&service, mac, None, None, None, NOW).unwrap();
    assert_eq!(page.items.len(), 1);
    assert_eq!(
        api::device_flows(&service, mac, Some("week"), None, None, NOW).err(),
        Some(400)
    );
    let rows = api::build_device_rows(&service, NOW).unwrap();
    assert_eq!(rows.len(), 1);
    assert_eq!(rows[0].flow_count, 1);
    assert_eq!(rows[0].upload_bytes, "100 B");

    service.repo.session.batch("DROP TABLE device_minute_stats").unwrap();
    assert_eq!(api::device_traffic(&service, mac, NOW).err(), Some(500));
}

#[test]
fn device_pages_show_what_is_stored() {
    let mut service = ObservationService::new(open_in_memory(), 24, 30);
    let mac = "aa:bb:cc:dd:ee:ff";
    assert_eq!(device_page(&service, mac, None, Some("week"), NOW).err(), Some(400));
    assert_eq!(device_page(&service, mac, None, None, NOW).err(), Some(404));
    let mut stored = flow("a", mac, NOW);
    stored.domain = Some(DomainAttribution {
        domain: "x.example".to_owned(),
        source: DomainSource::Dns,
        confidence: DomainConfidence::High,
        associated_at: NOW,
        expires_at: None,
    });
    service.repo.upsert_flow(&stored).unwrap();

    let page = device_page(&service, mac, Some(""), None, NOW).unwrap();
    assert!(!page.show_domain_trend);
    assert_eq!(page.selected_domain, "");
    assert_eq!(page.domain_24h_href, "");
    assert!(page.domain_traffic.is_empty());
    assert_eq!(page.device.mac_address, mac);
    assert_eq!(page.device_total_meter, 100);
    assert_eq!(page.flows.len(), 1);
    assert_eq!(page.traffic.len(), 1);
    assert_eq!(page.domains.len(), 1);
    assert!(!page.domains[0].selected);
    assert!(page.domain_24h_active && !page.domain_30d_active);

    let page = device_page(&service, mac, Some("x.example"), Some("30d"), NOW).unwrap();
    assert!(page.show_domain_trend);
    assert_eq!(page.selected_domain, "x.example");
    assert_eq!(page.domain_traffic.len(), 1);
    assert!(page.domains[0].selected);
    assert!(page.domain_30d_active && !page.domain_24h_active);
    assert_eq!(page.domain_window_label, "30 天 / 6 小时桶");
    assert!(page.domain_30d_href.contains("domain=x.example"));

    service.repo.session.batch("DROP TABLE domain_minute_stats").unwrap();
    assert_eq!(device_page(&service, mac, None, None, NOW).err(), Some(500));
}

#[test]
fn names_are_changed_only_by_genuine_requests() {
    let mut service = ObservationService::new(open_in_memory(), 24, 30);
    let mac = "aa:bb:cc:dd:ee:ff";
    assert_eq!(api::update_device_name(&mut service, false, mac, Some("TV")).err(), Some(403));
    assert_eq!(api::update_device_name(&mut service, true, mac, Some("a\nb")).err(), Some(400));
    assert_eq!(api::update_device_name(&mut service, true, mac, Some("TV")).err(), Some(404));
    service.repo.upsert_flow(&flow("a", mac, NOW)).unwrap();
    let device = api::update_device_name(&mut service, true, mac, Some(" TV ")).unwrap();
    assert_eq!(device.display_name.as_deref(), Some("TV"));
    assert!(matches!(
        api::rename_from_page(&mut service, true, mac, ""),
        api::RenameReply::Redirect(to) if to == "/devices/aa:bb:cc:dd:ee:ff"
    ));
    assert_eq!(service.device(mac).unwrap().unwrap().display_name, None);
    assert!(matches!(
        api::rename_from_page(&mut service, false, mac, ""),
        api::RenameReply::Refuse(403, "Invalid CSRF token.")
    ));
    assert!(matches!(
        api::rename_from_page(&mut service, true, mac, "a\nb"),
        api::RenameReply::Refuse(400, _)
    ));
    assert!(matches!(
        api::rename_from_page(&mut service, true, "none", "x"),
        api::RenameReply::Refuse(404, "")
    ));
}

#[test]
fn data_is_deleted_only_by_genuine_requests() {
    let mut service = ObservationService::new(open_in_memory(), 24, 30);
    let mut cache = DnsAttributionCache::new();
    let mac = "aa:bb:cc:dd:ee:ff";
    assert_eq!(api::delete_device_data(&mut service, &mut cache, false, mac).err(), Some(403));
    assert_eq!(api::delete_device_data(&mut service, &mut cache, true, mac).err(), Some(404));
    assert_eq!(
        api::delete_device_domain_data(&mut service, &mut cache, true, mac, "a.example").err(),
        Some(404)
    );
    assert_eq!(
        api::delete_global_domain_data(&mut service, &mut cache, true, "..").err(),
        Some(400)
    );
    assert_eq!(
        api::delete_time_range_data(&mut service, &mut cache, true, Some(2), Some(2)).err(),
        Some(400)
    );
    assert_eq!(
        api::delete_time_range_data(&mut service, &mut cache, true, Some(2), None).err(),
        Some(400)
    );
    let observed = sample_flow("a", mac, NOW);
    cache.learn_flow_identities(&[observed.clone()], NOW);
    service.repo.upsert_flow(&observed).unwrap();
    assert_eq!(cache.identity_count(), 1);
    let done = api::delete_device_domain_data(&mut service, &mut cache, true, mac, "Example.COM.")
        .unwrap();
    assert_eq!(done.flows_redacted, 1);
    let done = api::delete_time_range_data(
        &mut service,
        &mut cache,
        true,
        Some(NOW - 10_000),
        Some(NOW + 1),
    )
    .unwrap();
    assert_eq!(done.flows_deleted, 1);
    assert_eq!(api::delete_device_data(&mut service, &mut cache, true, mac).unwrap().devices_deleted, 1);
    assert_eq!(cache.identity_count(), 0);
}

#[test]
fn a_round_stores_what_was_collected() {
    let mut service = ObservationService::new(open_in_memory(), 24, 30);
    let mut cache = DnsAttributionCache::new();
    let mut queue = DnsObservationQueue::new();
    let mut tracker = CollectorHealthTracker::new(Some("simulator"));
    let mut collector = SimulatedCollector::new(NOW, 1);
    for round in 1..3 {
        let collected = collector.collect(NOW, 0);
        let report = run_cycle(&mut service, &mut cache, &mut queue, &mut tracker, collected);
        assert!(report.failure.is_none() && report.ingest_error.is_none());
        let snapshot = tracker.snapshot();
        assert!(snapshot.ready);
        assert_eq!(snapshot.flows_ingested, 2 * round);
    }
    let traffic = service.device_traffic("aa:bb:cc:dd:ee:01", NOW).unwrap();
    assert_eq!(traffic.iter().map(|stat| stat.upload_bytes).sum::<u64>(), 2_048);
    let top = service.device_domain_top("aa:bb:cc:dd:ee:02", NOW).unwrap();
    assert_eq!(top[0].domain, "video.example.net");
    assert_eq!(top[0].total_bytes, 2 * (512 + 16_384));

    service.repo.session.batch("DROP TABLE device_minute_stats").unwrap();
    let collected = collector.collect(NOW, 0);
    let report = run_cycle(&mut service, &mut cache, &mut queue, &mut tracker, collected);
    assert!(report.ingest_error.is_some());
    assert!(!tracker.snapshot().ready);
    assert_eq!(tracker.snapshot().state, "healthy");
}

#[test]
fn newer_databases_are_left_alone() {
    let mut repo = open_in_memory();
    repo.session.batch("PRAGMA user_version = 4").unwrap();
    let error = repo.migrate().err().unwrap();
    assert_eq!(
        error.message(),
        "database schema version 4 is newer than supported version 3"
    );
}

#[test]
fn cleanups_can_be_repeated() {
    let mut repo = open_in_memory();
    let mac = "aa:bb:cc:dd:ee:ff";
    let now = 3_000_000_000i64;
    repo.upsert_flow(&sample_flow("month", mac, now - 31 * 86_400_000))
        .unwrap();
    repo.upsert_flow(&sample_flow("day", mac, now - 25 * 3_600_000))
        .unwrap();
    repo.upsert_flow(&sample_flow("hour", mac, now - 3_600_000))
        .unwrap();

    assert_eq!(repo.delete_expired_data(now, 24, 30).unwrap(), (2, 2));
    assert_eq!(repo.delete_expired_data(now, 24, 30).unwrap(), (0, 0));
    assert_eq!(repo.delete_expired_data(now - 1, 24, 30).unwrap(), (0, 0));
    let flows = all_flows(&repo, mac);
    assert_eq!(ids(&flows), ["hour"]);
    assert_eq!(repo.list_device_minute_stats(mac, 0).unwrap().len(), 2);
}

#[test]
fn following_pages_shows_every_flow_once() {
    let mut service = ObservationService::new(open_in_memory(), 24, 30);
    let mac = "aa:bb:cc:dd:ee:ff";
    for index in 0..7 {
        service
            .repo
            .upsert_flow(&flow(&format!("flow-{index}"), mac, NOW - (index / 2) * 1_000))
            .unwrap();
    }
    let mut seen: Vec<String> = Vec::new();
    let mut pages = 1;
    let mut page = service
        .flow_page(mac, Some("24h"), Some(3), None, NOW)
        .unwrap();
    loop {
        seen.extend(page.items.iter().map(|flow| flow.flow_id.clone()));
        if page.next_cursor.is_none() {
            break;
        }
        page = service
            .flow_page(mac, None, None, Some(page.next_cursor), NOW)
            .unwrap();
        pages += 1;
    }
    assert_eq!(pages, 3);
    assert_eq!(
        seen,
        ["flow-1", "flow-0", "flow-3", "flow-2", "flow-5", "flow-4", "flow-6"]
    );
}

#[test]
fn minutes_add_up_to_the_counters_of_the_flows() {
    let mut repo = open_in_memory();
    let mac = "aa:bb:cc:dd:ee:ff";
    let mut named = sample_flow("named", mac, 65_000);
    named.upload_bytes = 100;
    named.download_bytes = 10;
    let mut nameless = sample_flow("nameless", mac, 70_000);
    nameless.upload_bytes = 7;
    nameless.download_bytes = 70;
    nameless.domain = None;
    let foreign = sample_flow("foreign", "00:00:00:00:00:01", 70_000);
    repo.upsert_flows(&vec![named.clone(), nameless.clone(), foreign])
        .unwrap();
    named.last_seen = 130_000;
    named.upload_bytes = 250;
    named.download_bytes = 11;
    nameless.last_seen = 190_000;
    nameless.upload_bytes = 9;
    repo.upsert_flows(&vec![named, nameless]).unwrap();

    let totals = |repo: &SqliteRepository<Driver>| {
        let device = repo.list_device_minute_stats(mac, 0).unwrap();
        let domain = repo
            .list_domain_minute_stats(mac, "example.com", 0)
            .unwrap();
        (
            device.iter().map(|row| row.upload_bytes).sum::<u64>(),
            device.iter().map(|row| row.download_bytes).sum::<u64>(),
            domain.iter().map(|row| row.upload_bytes).sum::<u64>(),
            domain.iter().map(|row| row.download_bytes).sum::<u64>(),
        )
    };
    assert_eq!(totals(&repo), (259, 81, 250, 11));

    let bindings = vec![ResolvedDomainBinding {
        client_mac: mac.to_owned(),
        target_ip: "93.184.216.34".to_owned(),
        attribution: DomainAttribution {
            domain: "example.com".to_owned(),
            source: DomainSource::Dns,
            confidence: DomainConfidence::High,
            associated_at: 60_000,
            expires_at: Some(200_000),
        },
    }];
    repo.backfill_domain_bindings(&bindings).unwrap();
    assert_eq!(totals(&repo), (259, 81, 259, 81));
}

#[test]
fn failed_batches_leave_no_part_behind() {
    let mut repo = open_in_memory();
    let mac = "aa:bb:cc:dd:ee:ff";
    let known = sample_flow("known", mac, 65_000);
    repo.upsert_flow(&known).unwrap();
    let mut later = known.clone();
    later.last_seen = 125_000;
    later.upload_bytes += 1;
    let mut back = known.clone();
    back.upload_bytes -= 1;

    let other = sample_flow("other", "00:00:00:00:00:01", 65_000);
    assert!(repo.upsert_flows(&vec![later, other, back]).is_err());
    assert_eq!(all_flows(&repo, mac), vec![known.clone()]);
    assert_eq!(repo.list_devices().unwrap().len(), 1);
    let stats = repo.list_device_minute_stats(mac, 0).unwrap();
    assert_eq!(stats.len(), 1);
    assert_eq!(stats[0].upload_bytes, known.upload_bytes);
    assert!(repo.upsert_flows(&vec![known]).is_ok());
}

#[test]
fn interrupted_cleanups_can_be_repeated() {
    let (mut repo, shared) = open_with_connection();
    let mac = "aa:bb:cc:dd:ee:ff";
    let now = 3_000_000_000i64;
    repo.upsert_flow(&sample_flow("month", mac, now - 31 * 86_400_000))
        .unwrap();
    repo.upsert_flow(&sample_flow("hour", mac, now - 3_600_000))
        .unwrap();
    shared
        .lock()
        .unwrap()
        .execute_batch(
            r#"
      CREATE TRIGGER reject_domain_delete
      BEFORE DELETE ON domain_minute_stats
      BEGIN
        SELECT RAISE(ABORT, 'test deletion failure');
      END;
      "#,
        )
        .unwrap();

    assert!(repo.delete_expired_data(now, 24, 30).is_err());
    assert_eq!(ids(&all_flows(&repo, mac)), ["hour"]);
    assert_eq!(repo.list_domain_minute_stats(mac, "example.com", 0).unwrap().len(), 2);

    shared
        .lock()
        .unwrap()
        .execute_batch("DROP TRIGGER reject_domain_delete")
        .unwrap();
    assert!(repo.delete_expired_data(now, 24, 30).is_ok());
    assert_eq!(ids(&all_flows(&repo, mac)), ["hour"]);
    assert_eq!(repo.list_device_minute_stats(mac, 0).unwrap().len(), 1);
    assert_eq!(repo.list_domain_minute_stats(mac, "example.com", 0).unwrap().len(), 1);
    assert_eq!(repo.delete_expired_data(now, 24, 30).unwrap(), (0, 0));
}

#[test]
fn rows_that_cannot_be_read_are_reported() {
    let (mut repo, shared) = open_with_connection();
    assert_eq!(repo.find_device("aa:bb:cc:dd:ee:ff").unwrap(), None);
    assert_eq!(repo.first_local_account().unwrap(), None);
    repo.upsert_device(&Device {
        mac_address: "aa:bb:cc:dd:ee:ff".to_owned(),
        display_name: None,
        current_ip: None,
    })
    .unwrap();
    repo.insert_local_account_if_missing("admin", "hash").unwrap();
    assert!(repo.find_device("aa:bb:cc:dd:ee:ff").unwrap().is_some());
    shared
        .lock()
        .unwrap()
        .execute_batch(
            "UPDATE devices SET current_ip = x'00'; UPDATE local_accounts SET password_hash = x'00'",
        )
        .unwrap();

    assert!(matches!(
        repo.find_device("aa:bb:cc:dd:ee:ff"),
        Err(StorageError::Column)
    ));
    assert!(matches!(repo.list_devices(), Err(StorageError::Column)));
    assert!(matches!(
        repo.first_local_account(),
        Err(StorageError::Column)
    ));
}

#[test]
fn repeated_domain_deletions_report_nothing() {
    let mut repo = open_in_memory();
    let mac = "aa:bb:cc:dd:ee:ff";
    repo.upsert_flow(&sample_flow("named", mac, 125_000)).unwrap();
    repo.upsert_flow(&sample_flow("foreign", "00:00:00:00:00:01", 125_000))
        .unwrap();

    let done = repo.delete_domain_data(Some(mac), "example.com").unwrap();
    assert_eq!(
        done,
        DataDeletionResult {
            flows_redacted: 1,
            domain_minutes_deleted: 1,
            contributions_deleted: 1,
            ..DataDeletionResult::default()
        }
    );
    assert_eq!(
        repo.delete_domain_data(Some(mac), "example.com").unwrap(),
        DataDeletionResult::default()
    );
    assert_eq!(
        repo.delete_domain_data(None, "example.com").unwrap(),
        done
    );
}

#[test]
fn pages_lead_back_and_belong_to_their_device() {
    let mut service = ObservationService::new(open_in_memory(), 24, 30);
    let mac = "aa:bb:cc:dd:ee:ff";
    for index in 0..5 {
        service
            .repo
            .upsert_flow(&flow(&format!("flow-{index}"), mac, NOW - index * 1_000))
            .unwrap();
    }
    let first = service
        .flow_page(mac, Some("24h"), Some(2), None, NOW)
        .unwrap();
    let cursor = || {
        service
            .flow_page(mac, Some("24h"), Some(2), None, NOW)
            .unwrap()
            .next_cursor
    };
    let second = service
        .flow_page(mac, None, None, Some(cursor()), NOW)
        .unwrap();
    assert_eq!(second.since_ms, first.since_ms);
    assert_eq!(second.limit, first.limit);
    assert!(matches!(
        service.flow_page("00:00:00:00:00:01", None, None, Some(cursor()), NOW),
        Err(FlowQueryError::CursorDeviceMismatch)
    ));
    let back = service
        .flow_page(mac, None, None, Some(second.previous_cursor), NOW)
        .unwrap();
    assert_eq!(ids(&back.items), ids(&first.items));
}

#[test]
fn services_keep_their_retention() {
    let mut service = ObservationService::new(open_in_memory(), 24, 30);
    let mut cache = DnsAttributionCache::new();
    let mac = "aa:bb:cc:dd:ee:ff";
    service.repo.upsert_flow(&sample_flow("one", mac, 125_000)).unwrap();
    assert!(api::update_device_name(&mut service, true, mac, Some("Phone")).is_ok());
    assert!(api::delete_device_data(&mut service, &mut cache, true, mac).is_ok());
    assert_eq!(service.flow_retention_hours, 24);
    assert_eq!(service.aggregate_retention_days, 30);
}
