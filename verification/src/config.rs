//! The settings under which the program runs.
use vstd::prelude::*;
use vstd::string::*;

use crate::addr::{Ipv4Address, SocketAddress};
use crate::domain::is_blank;
use crate::text::{parse_u64_max, str_eq, to_ascii_lowercase, trim};

verus! {

/// The settings as they were given, each absent where it was not. Addresses are absent too where
/// they could not be read.
#[derive(Debug)]
pub struct Settings {
    pub listen_addr: Option<SocketAddress>,
    pub database_path: Option<String>,
    pub flow_retention_hours: Option<String>,
    pub aggregate_retention_days: Option<String>,
    pub shutdown_timeout_secs: Option<String>,
    pub dev_bypass_auth: Option<String>,
    pub admin_username: Option<String>,
    pub admin_password_hash: Option<String>,
    pub secure_cookies: Option<String>,
    pub simulator_enabled: Option<String>,
    pub simulator_interval_secs: Option<String>,
    pub tc_ebpf_enabled: Option<String>,
    pub lan_interface: Option<String>,
    pub wan_interface: Option<String>,
    pub collector_interval_secs: Option<String>,
    pub conntrack_enabled: Option<String>,
    pub conntrack_refresh_interval_secs: Option<String>,
    pub dns_proxy_enabled: Option<String>,
    pub dns_listen_addr: Option<SocketAddress>,
    pub dns_upstream_addr: Option<SocketAddress>,
    pub dns_query_timeout_ms: Option<String>,
}

/// The settings that hold.
#[derive(Debug)]
pub struct Config {
    pub listen_addr: SocketAddress,
    pub database_path: String,
    pub flow_retention_hours: u32,
    pub aggregate_retention_days: u32,
    pub shutdown_timeout_secs: u64,
    pub dev_bypass_auth: bool,
    pub admin_username: String,
    pub admin_password_hash: Option<String>,
    pub secure_cookies: bool,
    pub simulator_enabled: bool,
    pub simulator_interval_secs: u64,
    pub tc_ebpf_enabled: bool,
    pub lan_interface: String,
    pub wan_interface: String,
    pub collector_interval_secs: u64,
    pub conntrack_enabled: bool,
    pub conntrack_refresh_interval_secs: u64,
    pub dns_proxy_enabled: bool,
    pub dns_listen_addr: SocketAddress,
    pub dns_upstream_addr: SocketAddress,
    pub dns_query_timeout_ms: u64,
}

/// The setting is on: `1`, or `true` in any case.
pub open spec fn switched_on(value: Option<String>) -> bool {
    match value {
        Some(v) => v@ == "1"@ || crate::text::lower_spec(v@) == "true"@,
        None => false,
    }
}

fn is_on(value: &Option<String>) -> (r: bool)
    ensures
        r == switched_on(*value),
{
    match value {
        Some(v) => str_eq(v.as_str(), "1") || str_eq(
            to_ascii_lowercase(v.as_str()).as_str(),
            "true",
        ),
        None => false,
    }
}

/// The number that a setting gives, where it is a positive one; else the default.
pub open spec fn number_of(value: Option<String>, max: nat, default: nat) -> nat {
    match value {
        Some(v) => match crate::text::parse_unsigned(v@, max) {
            Some(n) => if n > 0 {
                n
            } else {
                default
            },
            None => default,
        },
        None => default,
    }
}

/// Reads a number of 32 bits from a setting.
pub fn env_u32(value: &Option<String>, default: u32) -> (r: u32)
    ensures
        r == number_of(*value, u32::MAX as nat, default as nat),
{
    match value {
        Some(v) => match parse_u64_max(v.as_str(), u32::MAX as u64) {
            Some(n) => if n > 0 {
                n as u32
            } else {
                default
            },
            None => default,
        },
        None => default,
    }
}

/// Reads a number of 64 bits from a setting.
pub fn env_u64(value: &Option<String>, default: u64) -> (r: u64)
    ensures
        r == number_of(*value, u64::MAX as nat, default as nat),
{
    match value {
        Some(v) => match parse_u64_max(v.as_str(), u64::MAX) {
            Some(n) => if n > 0 {
                n
            } else {
                default
            },
            None => default,
        },
        None => default,
    }
}

/// The text that a setting gives, or the default.
pub open spec fn text_of(value: Option<String>, default: Seq<char>) -> Seq<char> {
    match value {
        Some(v) => v@,
        None => default,
    }
}

fn text_or(value: Option<String>, default: &'static str) -> (r: String)
    ensures
        r@ == text_of(value, default@),
{
    match value {
        Some(v) => v,
        None => default.to_owned(),
    }
}

/// The address of this machine that only it can reach.
pub open spec fn local(port: u16) -> SocketAddress {
    SocketAddress::V4 { ip: Ipv4Address { a: 127, b: 0, c: 0, d: 1 }, port }
}

/// The address that a setting gives, or the default.
pub open spec fn address_of(value: Option<SocketAddress>, default: SocketAddress) -> SocketAddress {
    match value {
        Some(a) => a,
        None => default,
    }
}

fn address_or(value: Option<SocketAddress>, default: SocketAddress) -> (r: SocketAddress)
    ensures
        r == address_of(value, default),
{
    match value {
        Some(a) => a,
        None => default,
    }
}

impl Config {
    /// Decides which settings hold. Whoever runs the program may only skip the login where it
    /// listens for this machine alone.
    pub fn from_env(settings: Settings) -> (r: Self)
        ensures
            r.listen_addr == address_of(settings.listen_addr, local(8080)),
            r.database_path@ == text_of(settings.database_path, "data/routescope.db"@),
            r.flow_retention_hours == number_of(
                settings.flow_retention_hours,
                u32::MAX as nat,
                24,
            ),
            r.aggregate_retention_days == number_of(
                settings.aggregate_retention_days,
                u32::MAX as nat,
                30,
            ),
            r.shutdown_timeout_secs == number_of(
                settings.shutdown_timeout_secs,
                u64::MAX as nat,
                10,
            ),
            r.dev_bypass_auth == (switched_on(settings.dev_bypass_auth)
                && r.listen_addr.loopback()),
            r.admin_username@ == text_of(settings.admin_username, "admin"@),
            crate::text::opt_view(r.admin_password_hash) == match settings.admin_password_hash {
                Some(hash) => if crate::text::trim_spec(hash@).len() > 0 {
                    Some(hash@)
                } else {
                    None
                },
                None => None,
            },
            r.secure_cookies == switched_on(settings.secure_cookies),
            r.simulator_enabled == switched_on(settings.simulator_enabled),
            r.simulator_interval_secs == number_of(
                settings.simulator_interval_secs,
                u64::MAX as nat,
                5,
            ),
            r.tc_ebpf_enabled == switched_on(settings.tc_ebpf_enabled),
            r.lan_interface@ == text_of(settings.lan_interface, "br-lan"@),
            r.wan_interface@ == text_of(settings.wan_interface, "eth0"@),
            r.collector_interval_secs == number_of(
                settings.collector_interval_secs,
                u64::MAX as nat,
                5,
            ),
            r.conntrack_enabled == switched_on(settings.conntrack_enabled),
            r.conntrack_refresh_interval_secs == number_of(
                settings.conntrack_refresh_interval_secs,
                u64::MAX as nat,
                5,
            ),
            r.dns_proxy_enabled == switched_on(settings.dns_proxy_enabled),
            r.dns_listen_addr == address_of(settings.dns_listen_addr, local(5353)),
            r.dns_upstream_addr == address_of(
                settings.dns_upstream_addr,
                SocketAddress::V4 { ip: (Ipv4Address { a: 1, b: 1, c: 1, d: 1 }), port: 53 },
            ),
            r.dns_query_timeout_ms == number_of(
                settings.dns_query_timeout_ms,
                u64::MAX as nat,
                2_000,
            ),
    {
        let here = Ipv4Address { a: 127, b: 0, c: 0, d: 1 };
        let listen_addr = address_or(
            settings.listen_addr,
            SocketAddress::V4 { ip: here, port: 8080 },
        );
        let admin_password_hash = match settings.admin_password_hash {
            Some(hash) => if is_blank(&trim(hash.as_str())) {
                None
            } else {
                Some(hash)
            },
            None => None,
        };
        Config {
            listen_addr,
            flow_retention_hours: env_u32(&settings.flow_retention_hours, 24),
            aggregate_retention_days: env_u32(&settings.aggregate_retention_days, 30),
            shutdown_timeout_secs: env_u64(&settings.shutdown_timeout_secs, 10),
            dev_bypass_auth: is_on(&settings.dev_bypass_auth) && listen_addr.is_loopback(),
            secure_cookies: is_on(&settings.secure_cookies),
            simulator_enabled: is_on(&settings.simulator_enabled),
            simulator_interval_secs: env_u64(&settings.simulator_interval_secs, 5),
            tc_ebpf_enabled: is_on(&settings.tc_ebpf_enabled),
            collector_interval_secs: env_u64(&settings.collector_interval_secs, 5),
            conntrack_enabled: is_on(&settings.conntrack_enabled),
            conntrack_refresh_interval_secs: env_u64(&settings.conntrack_refresh_interval_secs, 5),
            dns_proxy_enabled: is_on(&settings.dns_proxy_enabled),
            dns_listen_addr: address_or(
                settings.dns_listen_addr,
                SocketAddress::V4 { ip: here, port: 5353 },
            ),
            dns_upstream_addr: address_or(
                settings.dns_upstream_addr,
                SocketAddress::V4 { ip: Ipv4Address { a: 1, b: 1, c: 1, d: 1 }, port: 53 },
            ),
            dns_query_timeout_ms: env_u64(&settings.dns_query_timeout_ms, 2_000),
            database_path: text_or(settings.database_path, "data/routescope.db"),
            admin_username: text_or(settings.admin_username, "admin"),
            admin_password_hash,
            lan_interface: text_or(settings.lan_interface, "br-lan"),
            wan_interface: text_or(settings.wan_interface, "eth0"),
        }
    }

    /// Checks that not both sources of flows are switched on.
    pub fn check_sources(&self) -> (r: Result<(), &'static str>)
        ensures
            match r {
                Ok(_) => !(self.simulator_enabled && self.tc_ebpf_enabled),
                Err(e) => self.simulator_enabled && self.tc_ebpf_enabled && e@
                    == "ROUTESCOPE_ENABLE_SIMULATOR and ROUTESCOPE_ENABLE_TC_EBPF cannot both be enabled"@,
            },
    {
        if self.simulator_enabled && self.tc_ebpf_enabled {
            Err(
                "ROUTESCOPE_ENABLE_SIMULATOR and ROUTESCOPE_ENABLE_TC_EBPF cannot both be enabled",
            )
        } else {
            Ok(())
        }
    }
}

} // verus!
