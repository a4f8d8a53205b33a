use routescope::domain::{
    ConnectionState, Device, DeviceMinuteStat, DomainAttribution, DomainConfidence,
    DomainMinuteStat, DomainSource, DomainTrafficSummary, Flow, FlowDirection,
};
use routescope::format::{
    format_bytes, format_timestamp, percent_encode_component, relative_meter,
};
use routescope::web::{
    build_device_row, build_domain_traffic_rows_at, build_traffic_rows, device_meters, domain_row,
    domain_trend_href, flow_row, have_spans, summarize_device_rows, DeviceMeters,
    DomainTrendWindow,
};

fn domain_stat(minute_ms: i64, upload_bytes: u64, download_bytes: u64) -> DomainMinuteStat {
    DomainMinuteStat {
        mac_address: "aa:bb:cc:dd:ee:ff".to_owned(),
        domain: "example.com".to_owned(),
        minute_ms,
        upload_bytes,
        download_bytes,
        source: DomainSource::Dns,
        confidence: DomainConfidence::High,
    }
}

#[test]
fn domain_trend_uses_ten_minute_buckets_for_24_hours() {
    let rows = build_domain_traffic_rows_at(
        &vec![
            domain_stat(600_000, 100, 200),
            domain_stat(660_000, 300, 400),
            domain_stat(1_200_000, 50, 50),
        ],
        DomainTrendWindow::Hours24,
        1_300_000,
    );

    assert_eq!(rows.len(), 2);
    assert_eq!(rows[0].minute, "600.000 UTC");
    assert_eq!(rows[0].upload_bytes, "400 B");
    assert_eq!(rows[0].download_bytes, "600 B");
    assert_eq!(rows[0].total_bytes, "1000 B");
    assert_eq!(rows[0].bar_width, 100);
    assert_eq!(rows[1].total_bytes, "100 B");
}

#[test]
fn domain_trend_uses_six_hour_buckets_for_30_days() {
    let bucket = 6 * 60 * 60 * 1_000;
    let rows = build_domain_traffic_rows_at(
        &vec![
            domain_stat(bucket, 10, 20),
            domain_stat(bucket + 60_000, 30, 40),
            domain_stat(bucket * 2, 5, 5),
        ],
        DomainTrendWindow::Days30,
        bucket * 2 + 1,
    );

    assert_eq!(rows.len(), 2);
    assert_eq!(rows[0].upload_bytes, "40 B");
    assert_eq!(rows[0].download_bytes, "60 B");
    assert_eq!(rows[1].total_bytes, "10 B");
}

#[test]
fn domain_href_percent_encodes_query_component() {
    assert_eq!(
        domain_trend_href(
            "aa:bb:cc:dd:ee:ff",
            "例子.test/a+b",
            DomainTrendWindow::Days30,
        ),
        "/devices/aa:bb:cc:dd:ee:ff?domain=%E4%BE%8B%E5%AD%90.test%2Fa%2Bb&domain_window=30d"
    );
}

#[test]
fn trends_come_in_order_and_leave_out_what_is_older() {
    let rows = build_domain_traffic_rows_at(
        &vec![
            domain_stat(90_000_000, 1, 1),
            domain_stat(1_200_000, 1, 0),
            domain_stat(86_400_000, u64::MAX, 1),
            domain_stat(86_460_000, 5, 1),
        ],
        DomainTrendWindow::Hours24,
        90_000_000,
    );
    assert_eq!(rows.len(), 2);
    assert_eq!(rows[0].minute, "86400.000 UTC");
    assert_eq!(rows[0].total_bytes, "16777216.0 TiB");
    assert_eq!(rows[0].bar_width, 100);
    assert_eq!(rows[0].download_bytes, "2 B");
    assert_eq!(rows[1].minute, "90000.000 UTC");
    assert_eq!(rows[1].bar_width, 0);
}

#[test]
fn trend_windows_are_named() {
    assert_eq!(DomainTrendWindow::parse(None), Ok(DomainTrendWindow::Hours24));
    assert_eq!(DomainTrendWindow::parse(Some("30d")), Ok(DomainTrendWindow::Days30));
    assert_eq!(DomainTrendWindow::parse(Some("1h")), Err(400));
    assert_eq!(DomainTrendWindow::Days30.label(), "30 天 / 6 小时桶");
    assert_eq!(DomainTrendWindow::Hours24.label(), "24 小时 / 10 分钟桶");
}

fn reference_bytes(value: u64) -> String {
    const UNITS: [&str; 5] = ["B", "KiB", "MiB", "GiB", "TiB"];
    let mut amount = value as f64;
    let mut unit = 0;
    while amount >= 1024.0 && unit < UNITS.len() - 1 {
        amount /= 1024.0;
        unit += 1;
    }
    if unit == 0 {
        format!("{} {}", amount as u64, UNITS[unit])
    } else {
        format!("{amount:.1} {}", UNITS[unit])
    }
}

#[test]
fn amounts_are_written_as_floating_point_would_write_them() {
    let mut value: u64 = 1;
    for _ in 0..20_000 {
        value = value.wrapping_mul(6_364_136_223_846_793_005).wrapping_add(1_442_695_040_888_963_407);
        for shift in [0, 9, 20, 30, 40, 50] {
            let v = value >> shift;
            assert_eq!(format_bytes(v), reference_bytes(v), "{v}");
        }
    }
    for v in [
        0,
        1,
        1_023,
        1_024,
        1_280,
        1_792,
        1_048_575,
        1_048_576,
        1_099_511_627_775,
        (1 << 53) + 1,
        (1 << 54) + 2,
        (1 << 54) + 6,
        u64::MAX - 1_024,
        u64::MAX,
    ] {
        assert_eq!(format_bytes(v), reference_bytes(v), "{v}");
    }
    assert_eq!(format_bytes(1_536), "1.5 KiB");
    assert_eq!(format_bytes(5 * 1_073_741_824), "5.0 GiB");
}

fn reference_meter(value: u64, maximum: u64) -> u8 {
    if maximum == 0 {
        return 0;
    }
    ((value as f64 / maximum as f64) * 100.0).round() as u8
}

#[test]
fn meters_are_what_floating_point_gives() {
    for maximum in 0..400 {
        for value in 0..=maximum + 3 {
            assert_eq!(relative_meter(value, maximum), reference_meter(value, maximum));
        }
    }
    let mut seed: u64 = 7;
    for _ in 0..20_000 {
        seed = seed.wrapping_mul(6_364_136_223_846_793_005).wrapping_add(1_442_695_040_888_963_407);
        let value = seed >> (seed % 60);
        let maximum = seed.rotate_left(31) >> (seed % 37);
        assert_eq!(relative_meter(value, maximum), reference_meter(value, maximum));
    }
    for (value, maximum) in [
        (u64::MAX, u64::MAX),
        (u64::MAX, 1),
        (1, u64::MAX),
        (145, 1_000),
        (u64::MAX - 1, u64::MAX),
        (1 << 53, (1 << 53) + 1),
    ] {
        assert_eq!(relative_meter(value, maximum), reference_meter(value, maximum));
    }
    assert_eq!(relative_meter(1, 3), 33);
    assert_eq!(relative_meter(5, 0), 0);
}

#[test]
fn device_pages_show_both_directions_beside_the_total() {
    let row = build_device_row(&device(None, None), &vec![flow(30, 70, 1)], &vec![]);
    assert_eq!(device_meters(&row), DeviceMeters { total: 100, upload: 30, download: 70 });
    let idle = build_device_row(&device(None, None), &vec![], &vec![]);
    assert_eq!(device_meters(&idle), DeviceMeters { total: 0, upload: 0, download: 0 });
}

#[test]
fn times_are_written_with_milliseconds() {
    assert_eq!(format_timestamp(0), "0.000 UTC");
    assert_eq!(format_timestamp(1_700_000_000_007), "1700000000.007 UTC");
    assert_eq!(format_timestamp(-1), "-1.999 UTC");
    assert_eq!(format_timestamp(i64::MIN), "-9223372036854776.192 UTC");
}

#[test]
fn only_unreserved_characters_stay() {
    assert_eq!(percent_encode_component("aZ09-._~"), "aZ09-._~");
    assert_eq!(percent_encode_component("% &=/"), "%25%20%26%3D%2F");
    assert_eq!(percent_encode_component(""), "");
}

fn flow(upload: u64, download: u64, last_seen: i64) -> Flow {
    Flow {
        flow_id: "flow".to_owned(),
        first_seen: 0,
        last_seen,
        protocol: "tcp".to_owned(),
        direction: FlowDirection::Bidirectional,
        lan_interface: "br-lan".to_owned(),
        wan_interface: "eth0".to_owned(),
        client_mac: "aa:bb:cc:dd:ee:ff".to_owned(),
        client_ip: "192.168.1.10".to_owned(),
        client_port: 50_000,
        destination_ip: "93.184.216.34".to_owned(),
        destination_port: 443,
        nat_source_ip: None,
        nat_source_port: None,
        nat_destination_ip: None,
        nat_destination_port: None,
        upload_bytes: upload,
        download_bytes: download,
        packet_count: 3,
        domain: None,
        connection_state: ConnectionState::Established,
    }
}

fn device(name: Option<&str>, ip: Option<&str>) -> Device {
    Device {
        mac_address: "aa:bb:cc:dd:ee:ff".to_owned(),
        display_name: name.map(str::to_owned),
        current_ip: ip.map(str::to_owned),
    }
}

fn summary(domain: &str) -> DomainTrafficSummary {
    DomainTrafficSummary {
        domain: domain.to_owned(),
        upload_bytes: 1_024,
        download_bytes: 2_048,
        total_bytes: 3_072,
        source: DomainSource::Dns,
        confidence: DomainConfidence::High,
    }
}

#[test]
fn devices_are_shown_with_their_traffic() {
    let row = build_device_row(
        &device(Some("TV"), Some("192.168.1.10")),
        &vec![flow(1_000, 24, 5_000), flow(24, 1_000, 4_000)],
        &vec![summary("example.com"), summary("other.example")],
    );
    assert_eq!(row.display_name, "TV");
    assert_eq!(row.raw_name, "TV");
    assert_eq!(row.current_ip, "192.168.1.10");
    assert_eq!(row.upload_total, 1_024);
    assert_eq!(row.upload_bytes, "1.0 KiB");
    assert_eq!(row.total_bytes, "2.0 KiB");
    assert_eq!(row.flow_count, 2);
    assert_eq!(row.last_seen, "5.000 UTC");
    assert_eq!(row.top_domain, "example.com");
    assert_eq!(row.top_domain_meta, "dns / high");

    let bare = build_device_row(&device(None, None), &vec![], &vec![]);
    assert_eq!(bare.display_name, "未命名设备");
    assert_eq!(bare.raw_name, "");
    assert_eq!(bare.current_ip, "未知");
    assert_eq!(bare.last_seen, "暂无");
    assert_eq!(bare.top_domain, "未知");
    assert_eq!(bare.top_domain_meta, "unknown / unknown");

    let totals = summarize_device_rows(&vec![row, bare]);
    assert_eq!(totals.upload, 1_024);
    assert_eq!(totals.download, 1_024);
    assert_eq!(totals.flow_count, 2);
    assert_eq!(totals.upload_bytes, "1.0 KiB");
    assert_eq!(totals.upload_meter, 100);
    assert_eq!(totals.download_meter, 100);
}

#[test]
fn flows_are_shown_with_their_translation_and_domain() {
    let mut shown = flow(1, 2, 3_000);
    let row = flow_row(&shown);
    assert_eq!(row.client_endpoint, "192.168.1.10:50000");
    assert_eq!(row.destination_endpoint, "93.184.216.34:443");
    assert_eq!(row.nat_mapping, "未关联");
    assert_eq!(row.domain, "未知");
    assert_eq!(row.source, "unknown");
    assert_eq!(row.packet_count, "3");
    assert_eq!(row.connection_state, "established");

    shown.nat_source_ip = Some("203.0.113.10".to_owned());
    shown.nat_source_port = Some(40_001);
    shown.nat_destination_ip = Some("93.184.216.34".to_owned());
    shown.nat_destination_port = Some(443);
    shown.domain = Some(DomainAttribution {
        domain: "example.com".to_owned(),
        source: DomainSource::Sni,
        confidence: DomainConfidence::Low,
        associated_at: 1,
        expires_at: None,
    });
    let row = flow_row(&shown);
    assert_eq!(row.nat_mapping, "203.0.113.10:40001 → 93.184.216.34:443");
    assert_eq!(row.domain, "example.com");
    assert_eq!(row.source, "sni");
    assert_eq!(row.confidence, "low");
}

#[test]
fn domains_are_shown_with_their_link() {
    let row = domain_row("aa", Some("example.com"), &summary("example.com"));
    assert!(row.selected);
    assert_eq!(row.trend_href, "/devices/aa?domain=example.com&domain_window=24h");
    assert_eq!(row.total_bytes, "3.0 KiB");
    assert!(!domain_row("aa", None, &summary("example.com")).selected);
}

fn device_stat(minute_ms: i64, upload_bytes: u64) -> DeviceMinuteStat {
    DeviceMinuteStat {
        mac_address: "aa".to_owned(),
        minute_ms,
        upload_bytes,
        download_bytes: 0,
    }
}

#[test]
fn device_traffic_shows_the_last_minutes_of_a_day() {
    let now = 200_000_000;
    let mut stats = vec![device_stat(now - 86_400_001, 9)];
    for i in 0..200 {
        stats.push(device_stat(now - 86_400_000 + i * 60_000, i as u64));
    }
    let rows = build_traffic_rows(&stats, now);
    assert_eq!(rows.len(), 180);
    assert_eq!(rows[0].upload_bytes, "20 B");
    assert_eq!(rows[0].bar_width, 10);
    assert_eq!(rows[179].bar_width, 100);
    assert!(build_traffic_rows(&vec![], now).is_empty());
}

#[test]
fn trends_can_begin_at_the_earliest_time() {
    let early = vec![domain_stat(-600_000, 100, 200)];
    let rows = build_domain_traffic_rows_at(&early, DomainTrendWindow::Hours24, i64::MIN);
    assert_eq!(rows.len(), 1);
    assert_eq!(rows[0].upload_bytes, "100 B");
    assert!(have_spans(&early, DomainTrendWindow::Hours24, i64::MIN));
    let first = vec![domain_stat(i64::MIN, 1, 1)];
    assert!(!have_spans(&first, DomainTrendWindow::Hours24, i64::MIN));
    assert!(have_spans(&first, DomainTrendWindow::Hours24, 0));
    assert!(build_domain_traffic_rows_at(&first, DomainTrendWindow::Hours24, 0).is_empty());
}
