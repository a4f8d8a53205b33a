use routescope::addr::{Ipv4Address, SocketAddress};
use routescope::config::{env_u32, env_u64, Config, Settings};

fn unset() -> Settings {
    Settings {
        listen_addr: None,
        database_path: None,
        flow_retention_hours: None,
        aggregate_retention_days: None,
        shutdown_timeout_secs: None,
        dev_bypass_auth: None,
        admin_username: None,
        admin_password_hash: None,
        secure_cookies: None,
        simulator_enabled: None,
        simulator_interval_secs: None,
        tc_ebpf_enabled: None,
        lan_interface: None,
        wan_interface: None,
        collector_interval_secs: None,
        conntrack_enabled: None,
        conntrack_refresh_interval_secs: None,
        dns_proxy_enabled: None,
        dns_listen_addr: None,
        dns_upstream_addr: None,
        dns_query_timeout_ms: None,
    }
}

fn v4(text: &str, port: u16) -> SocketAddress {
    SocketAddress::V4 { ip: Ipv4Address::parse(text).unwrap(), port }
}

fn text(value: &str) -> Option<String> {
    Some(value.to_owned())
}

#[test]
fn unset_settings_have_defaults() {
    let config = Config::from_env(unset());
    assert_eq!(config.listen_addr, v4("127.0.0.1", 8080));
    assert_eq!(config.database_path, "data/routescope.db");
    assert_eq!(config.flow_retention_hours, 24);
    assert_eq!(config.aggregate_retention_days, 30);
    assert_eq!(config.shutdown_timeout_secs, 10);
    assert!(!config.dev_bypass_auth);
    assert_eq!(config.admin_username, "admin");
    assert_eq!(config.admin_password_hash, None);
    assert!(!config.secure_cookies);
    assert_eq!(config.simulator_interval_secs, 5);
    assert_eq!(config.lan_interface, "br-lan");
    assert_eq!(config.wan_interface, "eth0");
    assert_eq!(config.collector_interval_secs, 5);
    assert_eq!(config.conntrack_refresh_interval_secs, 5);
    assert_eq!(config.dns_listen_addr, v4("127.0.0.1", 5353));
    assert_eq!(config.dns_upstream_addr, v4("1.1.1.1", 53));
    assert_eq!(config.dns_query_timeout_ms, 2_000);
    assert!(config.check_sources().is_ok());
}

#[test]
fn bypass_is_only_granted_to_this_machine() {
    let mut settings = unset();
    settings.dev_bypass_auth = text("TRUE");
    assert!(Config::from_env(settings).dev_bypass_auth);

    let mut settings = unset();
    settings.dev_bypass_auth = text("1");
    settings.listen_addr = Some(v4("192.168.1.1", 80));
    assert!(!Config::from_env(settings).dev_bypass_auth);

    let mut settings = unset();
    settings.dev_bypass_auth = text("1");
    settings.listen_addr = Some(SocketAddress::V6 { bits: 1, port: 80, flow_info: 0, scope_id: 0 });
    assert!(Config::from_env(settings).dev_bypass_auth);

    let mut settings = unset();
    settings.dev_bypass_auth = text("yes");
    assert!(!Config::from_env(settings).dev_bypass_auth);
}

#[test]
fn numbers_must_be_positive() {
    assert_eq!(env_u32(&text("48"), 24), 48);
    assert_eq!(env_u32(&text("+48"), 24), 48);
    assert_eq!(env_u32(&text("0"), 24), 24);
    assert_eq!(env_u32(&text("-1"), 24), 24);
    assert_eq!(env_u32(&text("4294967295"), 24), u32::MAX);
    assert_eq!(env_u32(&text("4294967296"), 24), 24);
    assert_eq!(env_u32(&text(" 1"), 24), 24);
    assert_eq!(env_u64(&text("18446744073709551615"), 5), u64::MAX);
    assert_eq!(env_u64(&None, 5), 5);
}

#[test]
fn blank_hashes_do_not_count() {
    let mut settings = unset();
    settings.admin_password_hash = text("  ");
    assert_eq!(Config::from_env(settings).admin_password_hash, None);
    let mut settings = unset();
    settings.admin_password_hash = text(" hash ");
    assert_eq!(Config::from_env(settings).admin_password_hash, text(" hash "));
}

#[test]
fn only_one_source_may_be_enabled() {
    let mut settings = unset();
    settings.simulator_enabled = text("true");
    settings.tc_ebpf_enabled = text("1");
    let config = Config::from_env(settings);
    assert_eq!(
        config.check_sources(),
        Err("ROUTESCOPE_ENABLE_SIMULATOR and ROUTESCOPE_ENABLE_TC_EBPF cannot both be enabled")
    );
}
