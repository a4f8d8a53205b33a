//! Devices, flows and domain attributions.
use vstd::prelude::*;
use vstd::string::*;

use crate::num::rem_euclid_i64;
use crate::text::{any_control, chars_of, clone_opt, push_decimal, str_eq, trim};

verus! {

/// Milliseconds since the Unix epoch.
pub type TimestampMs = i64;

/// Milliseconds in one minute bucket.
pub const MINUTE_MS: i64 = 60_000;

/// The start of the UTC minute that holds `ts`.
pub open spec fn minute_of(ts: int) -> int {
    ts - ts % 60_000
}

/// Rounds a timestamp down to the start of its UTC minute.
pub fn floor_to_minute_ms(ts: TimestampMs) -> (r: TimestampMs)
    requires
        minute_of(ts as int) >= i64::MIN,
    ensures
        r == minute_of(ts as int),
{
    ts - rem_euclid_i64(ts, MINUTE_MS)
}

/// A minute bucket starts on a multiple of a minute, holds the timestamp, and is its own bucket.
pub proof fn minute_bucket_holds_its_timestamp(ts: int)
    ensures
        minute_of(ts) % 60_000 == 0,
        minute_of(ts) <= ts < minute_of(ts) + 60_000,
        minute_of(minute_of(ts)) == minute_of(ts),
{
}

/// Later timestamps never fall into earlier buckets.
pub proof fn minute_buckets_are_ordered(a: int, b: int)
    requires
        a <= b,
    ensures
        minute_of(a) <= minute_of(b),
{
}

/// A LAN device. The MAC address identifies it; IP addresses are snapshots.
#[derive(Debug, PartialEq, Eq)]
pub struct Device {
    pub mac_address: String,
    pub display_name: Option<String>,
    pub current_ip: Option<String>,
}

/// What a device is, as a mathematical value.
#[verifier::ext_equal]
pub struct DeviceView {
    pub mac_address: Seq<char>,
    pub display_name: Option<Seq<char>>,
    pub current_ip: Option<Seq<char>>,
}

impl View for Device {
    type V = DeviceView;

    open spec fn view(&self) -> DeviceView {
        DeviceView {
            mac_address: self.mac_address@,
            display_name: crate::text::opt_view(self.display_name),
            current_ip: crate::text::opt_view(self.current_ip),
        }
    }
}

impl Clone for Device {
    fn clone(&self) -> (r: Self)
        ensures
            r == *self,
    {
        Device {
            mac_address: self.mac_address.clone(),
            display_name: clone_opt(&self.display_name),
            current_ip: clone_opt(&self.current_ip),
        }
    }
}

/// The most characters that a display name may have.
pub const DISPLAY_NAME_MAX_CHARS: usize = 128;

/// The display name that a user's input stands for: `None` when the input is refused, otherwise the
/// name, absent when the input is blank.
pub open spec fn display_name_of(value: Option<Seq<char>>) -> Option<Option<Seq<char>>> {
    let name = crate::text::trim_spec(
        match value {
            Some(v) => v,
            None => Seq::<char>::empty(),
        },
    );
    if name.len() > 128 || crate::text::has_control(name) {
        None
    } else if name.len() == 0 {
        Some(None)
    } else {
        Some(Some(name))
    }
}

/// Normalizes a display name given by a user; a blank value clears the name.
pub fn normalize_display_name(value: Option<&str>) -> (r: Result<Option<String>, &'static str>)
    ensures
        match r {
            Ok(name) => display_name_of(
                match value {
                    Some(v) => Some(v@),
                    None => None,
                },
            ) == Some(crate::text::opt_view(name)),
            Err(e) => display_name_of(
                match value {
                    Some(v) => Some(v@),
                    None => None,
                },
            ) is None && e@ == "display name must be at most 128 non-control characters"@,
        },
{
    let given = match value {
        Some(v) => v,
        None => "",
    };
    proof {
        reveal_strlit("");
        assert(""@ =~= Seq::<char>::empty());
    }
    let name = trim(given);
    let chars = chars_of(name.as_str());
    if chars.len() > DISPLAY_NAME_MAX_CHARS {
        return Err("display name must be at most 128 non-control characters");
    }
    if any_control(&chars) {
        return Err("display name must be at most 128 non-control characters");
    }
    if chars.len() == 0 {
        Ok(None)
    } else {
        Ok(Some(name))
    }
}

/// A name that was accepted once is accepted again, unchanged.
pub proof fn display_names_are_stable(value: Option<Seq<char>>)
    ensures
        match display_name_of(value) {
            Some(name) => display_name_of(name) == Some(name),
            None => true,
        },
{
    let given = match value {
        Some(v) => v,
        None => Seq::<char>::empty(),
    };
    crate::text::trim_is_idempotent(given);
    crate::text::trim_is_idempotent(Seq::<char>::empty());
    let e = Seq::<char>::empty();
    assert(crate::text::trim_spec(e) =~= e) by {
        assert(crate::text::trim_start_spec(e) == e);
        assert(crate::text::trim_end_spec(e) == e);
    }
}

/// The direction of a flow as seen from the LAN client.
#[derive(Debug, Clone, Copy, PartialEq, Eq, Structural)]
pub enum FlowDirection {
    Upload,
    Download,
    Bidirectional,
}

impl FlowDirection {
    /// The stored form.
    pub open spec fn text(self) -> Seq<char> {
        match self {
            FlowDirection::Upload => "upload"@,
            FlowDirection::Download => "download"@,
            FlowDirection::Bidirectional => "bidirectional"@,
        }
    }

    /// The direction that a stored form stands for.
    pub open spec fn from_text(value: Seq<char>) -> Option<FlowDirection> {
        if value == "upload"@ {
            Some(FlowDirection::Upload)
        } else if value == "download"@ {
            Some(FlowDirection::Download)
        } else if value == "bidirectional"@ {
            Some(FlowDirection::Bidirectional)
        } else {
            None
        }
    }

    /// The form under which the direction is stored.
    pub fn as_str(&self) -> (r: &'static str)
        ensures
            r@ == self.text(),
    {
        match self {
            FlowDirection::Upload => "upload",
            FlowDirection::Download => "download",
            FlowDirection::Bidirectional => "bidirectional",
        }
    }

    /// Reads a stored direction.
    pub fn parse(value: &str) -> (r: Option<Self>)
        ensures
            r == Self::from_text(value@),
    {
        if str_eq(value, "upload") {
            Some(FlowDirection::Upload)
        } else if str_eq(value, "download") {
            Some(FlowDirection::Download)
        } else if str_eq(value, "bidirectional") {
            Some(FlowDirection::Bidirectional)
        } else {
            None
        }
    }

    /// A stored direction reads back as itself, and nothing else reads as it.
    pub proof fn text_round_trips(self, value: Seq<char>)
        ensures
            Self::from_text(self.text()) == Some(self),
            Self::from_text(value) == Some(self) ==> value == self.text(),
    {
        reveal_strlit("upload");
        reveal_strlit("download");
        reveal_strlit("bidirectional");
        assert("upload"@[0] != "download"@[0]);
        assert("upload"@[0] != "bidirectional"@[0]);
        assert("download"@[0] != "bidirectional"@[0]);
    }
}

/// Where a connection stands in its life.
#[derive(Debug, Clone, Copy, PartialEq, Eq, Structural)]
pub enum ConnectionState {
    New,
    Established,
    Closing,
    Closed,
    Unknown,
}

impl ConnectionState {
    /// The stored form.
    pub open spec fn text(self) -> Seq<char> {
        match self {
            ConnectionState::New => "new"@,
            ConnectionState::Established => "established"@,
            ConnectionState::Closing => "closing"@,
            ConnectionState::Closed => "closed"@,
            ConnectionState::Unknown => "unknown"@,
        }
    }

    /// The state that a stored form stands for.
    pub open spec fn from_text(value: Seq<char>) -> Option<ConnectionState> {
        if value == "new"@ {
            Some(ConnectionState::New)
        } else if value == "established"@ {
            Some(ConnectionState::Established)
        } else if value == "closing"@ {
            Some(ConnectionState::Closing)
        } else if value == "closed"@ {
            Some(ConnectionState::Closed)
        } else if value == "unknown"@ {
            Some(ConnectionState::Unknown)
        } else {
            None
        }
    }

    /// The form under which the state is stored.
    pub fn as_str(&self) -> (r: &'static str)
        ensures
            r@ == self.text(),
    {
        match self {
            ConnectionState::New => "new",
            ConnectionState::Established => "established",
            ConnectionState::Closing => "closing",
            ConnectionState::Closed => "closed",
            ConnectionState::Unknown => "unknown",
        }
    }

    /// Reads a stored state.
    pub fn parse(value: &str) -> (r: Option<Self>)
        ensures
            r == Self::from_text(value@),
    {
        if str_eq(value, "new") {
            Some(ConnectionState::New)
        } else if str_eq(value, "established") {
            Some(ConnectionState::Established)
        } else if str_eq(value, "closing") {
            Some(ConnectionState::Closing)
        } else if str_eq(value, "closed") {
            Some(ConnectionState::Closed)
        } else if str_eq(value, "unknown") {
            Some(ConnectionState::Unknown)
        } else {
            None
        }
    }

    /// A stored state reads back as itself, and nothing else reads as it.
    pub proof fn text_round_trips(self, value: Seq<char>)
        ensures
            Self::from_text(self.text()) == Some(self),
            Self::from_text(value) == Some(self) ==> value == self.text(),
    {
        reveal_strlit("new");
        reveal_strlit("established");
        reveal_strlit("closing");
        reveal_strlit("closed");
        reveal_strlit("unknown");
        assert("new"@.len() == 3);
        assert("established"@.len() == 11);
        assert("closing"@.len() == 7);
        assert("closed"@.len() == 6);
        assert("unknown"@.len() == 7);
        assert("unknown"@[0] != "closing"@[0]);
    }
}

/// Where a domain attribution comes from.
#[derive(Debug, Clone, Copy, PartialEq, Eq, Structural)]
pub enum DomainSource {
    Dns,
    Sni,
    Unknown,
}

impl DomainSource {
    /// The stored form.
    pub open spec fn text(self) -> Seq<char> {
        match self {
            DomainSource::Dns => "dns"@,
            DomainSource::Sni => "sni"@,
            DomainSource::Unknown => "unknown"@,
        }
    }

    /// The source that a stored form stands for.
    pub open spec fn from_text(value: Seq<char>) -> Option<DomainSource> {
        if value == "dns"@ {
            Some(DomainSource::Dns)
        } else if value == "sni"@ {
            Some(DomainSource::Sni)
        } else if value == "unknown"@ {
            Some(DomainSource::Unknown)
        } else {
            None
        }
    }

    /// The form under which the source is stored.
    pub fn as_str(&self) -> (r: &'static str)
        ensures
            r@ == self.text(),
    {
        match self {
            DomainSource::Dns => "dns",
            DomainSource::Sni => "sni",
            DomainSource::Unknown => "unknown",
        }
    }

    /// Reads a stored source.
    pub fn parse(value: &str) -> (r: Option<Self>)
        ensures
            r == Self::from_text(value@),
    {
        if str_eq(value, "dns") {
            Some(DomainSource::Dns)
        } else if str_eq(value, "sni") {
            Some(DomainSource::Sni)
        } else if str_eq(value, "unknown") {
            Some(DomainSource::Unknown)
        } else {
            None
        }
    }

    /// A stored source reads back as itself, and nothing else reads as it.
    pub proof fn text_round_trips(self, value: Seq<char>)
        ensures
            Self::from_text(self.text()) == Some(self),
            Self::from_text(value) == Some(self) ==> value == self.text(),
    {
        reveal_strlit("dns");
        reveal_strlit("sni");
        reveal_strlit("unknown");
        assert("dns"@[0] != "sni"@[0]);
        assert("dns"@[0] != "unknown"@[0]);
        assert("sni"@[0] != "unknown"@[0]);
    }
}

/// How far a domain attribution can be relied on.
#[derive(Debug, Clone, Copy, PartialEq, Eq, Structural)]
pub enum DomainConfidence {
    High,
    Low,
    Unknown,
}

impl DomainConfidence {
    /// The stored form.
    pub open spec fn text(self) -> Seq<char> {
        match self {
            DomainConfidence::High => "high"@,
            DomainConfidence::Low => "low"@,
            DomainConfidence::Unknown => "unknown"@,
        }
    }

    /// The confidence that a stored form stands for.
    pub open spec fn from_text(value: Seq<char>) -> Option<DomainConfidence> {
        if value == "high"@ {
            Some(DomainConfidence::High)
        } else if value == "low"@ {
            Some(DomainConfidence::Low)
        } else if value == "unknown"@ {
            Some(DomainConfidence::Unknown)
        } else {
            None
        }
    }

    /// The form under which the confidence is stored.
    pub fn as_str(&self) -> (r: &'static str)
        ensures
            r@ == self.text(),
    {
        match self {
            DomainConfidence::High => "high",
            DomainConfidence::Low => "low",
            DomainConfidence::Unknown => "unknown",
        }
    }

    /// Reads a stored confidence.
    pub fn parse(value: &str) -> (r: Option<Self>)
        ensures
            r == Self::from_text(value@),
    {
        if str_eq(value, "high") {
            Some(DomainConfidence::High)
        } else if str_eq(value, "low") {
            Some(DomainConfidence::Low)
        } else if str_eq(value, "unknown") {
            Some(DomainConfidence::Unknown)
        } else {
            None
        }
    }

    /// A stored confidence reads back as itself, and nothing else reads as it.
    pub proof fn text_round_trips(self, value: Seq<char>)
        ensures
            Self::from_text(self.text()) == Some(self),
            Self::from_text(value) == Some(self) ==> value == self.text(),
    {
        reveal_strlit("high");
        reveal_strlit("low");
        reveal_strlit("unknown");
        assert("high"@[0] != "low"@[0]);
        assert("high"@[0] != "unknown"@[0]);
        assert("low"@[0] != "unknown"@[0]);
    }
}

/// A domain that traffic was attributed to, with what the attribution rests on.
#[derive(Debug, PartialEq, Eq)]
pub struct DomainAttribution {
    pub domain: String,
    pub source: DomainSource,
    pub confidence: DomainConfidence,
    pub associated_at: TimestampMs,
    pub expires_at: Option<TimestampMs>,
}

/// What an attribution is, as a mathematical value.
#[verifier::ext_equal]
pub struct AttributionView {
    pub domain: Seq<char>,
    pub source: DomainSource,
    pub confidence: DomainConfidence,
    pub associated_at: i64,
    pub expires_at: Option<i64>,
}

impl View for DomainAttribution {
    type V = AttributionView;

    open spec fn view(&self) -> AttributionView {
        AttributionView {
            domain: self.domain@,
            source: self.source,
            confidence: self.confidence,
            associated_at: self.associated_at,
            expires_at: self.expires_at,
        }
    }
}

impl Clone for DomainAttribution {
    fn clone(&self) -> (r: Self)
        ensures
            r == *self,
    {
        DomainAttribution {
            domain: self.domain.clone(),
            source: self.source,
            confidence: self.confidence,
            associated_at: self.associated_at,
            expires_at: self.expires_at,
        }
    }
}

/// The view of an optional attribution.
pub open spec fn attribution_view(a: Option<DomainAttribution>) -> Option<AttributionView> {
    match a {
        Some(v) => Some(v@),
        None => None,
    }
}

/// A copy of an optional attribution.
pub fn clone_attribution(a: &Option<DomainAttribution>) -> (r: Option<DomainAttribution>)
    ensures
        r == *a,
{
    match a {
        Some(v) => Some(v.clone()),
        None => None,
    }
}

/// One observed connection, with counters that accumulate over its life.
#[derive(Debug, PartialEq, Eq)]
pub struct Flow {
    pub flow_id: String,
    pub first_seen: TimestampMs,
    pub last_seen: TimestampMs,
    pub protocol: String,
    pub direction: FlowDirection,
    pub lan_interface: String,
    pub wan_interface: String,
    pub client_mac: String,
    pub client_ip: String,
    pub client_port: u16,
    pub destination_ip: String,
    pub destination_port: u16,
    /// Not all traffic passes through NAT: the four fields are present together or not at all.
    pub nat_source_ip: Option<String>,
    pub nat_source_port: Option<u16>,
    pub nat_destination_ip: Option<String>,
    pub nat_destination_port: Option<u16>,
    pub upload_bytes: u64,
    pub download_bytes: u64,
    pub packet_count: u64,
    pub domain: Option<DomainAttribution>,
    pub connection_state: ConnectionState,
}

/// What a flow is, as a mathematical value.
#[verifier::ext_equal]
pub struct FlowView {
    pub flow_id: Seq<char>,
    pub first_seen: i64,
    pub last_seen: i64,
    pub protocol: Seq<char>,
    pub direction: FlowDirection,
    pub lan_interface: Seq<char>,
    pub wan_interface: Seq<char>,
    pub client_mac: Seq<char>,
    pub client_ip: Seq<char>,
    pub client_port: u16,
    pub destination_ip: Seq<char>,
    pub destination_port: u16,
    pub nat_source_ip: Option<Seq<char>>,
    pub nat_source_port: Option<u16>,
    pub nat_destination_ip: Option<Seq<char>>,
    pub nat_destination_port: Option<u16>,
    pub upload_bytes: u64,
    pub download_bytes: u64,
    pub packet_count: u64,
    pub domain: Option<AttributionView>,
    pub connection_state: ConnectionState,
}

impl View for Flow {
    type V = FlowView;

    open spec fn view(&self) -> FlowView {
        FlowView {
            flow_id: self.flow_id@,
            first_seen: self.first_seen,
            last_seen: self.last_seen,
            protocol: self.protocol@,
            direction: self.direction,
            lan_interface: self.lan_interface@,
            wan_interface: self.wan_interface@,
            client_mac: self.client_mac@,
            client_ip: self.client_ip@,
            client_port: self.client_port,
            destination_ip: self.destination_ip@,
            destination_port: self.destination_port,
            nat_source_ip: crate::text::opt_view(self.nat_source_ip),
            nat_source_port: self.nat_source_port,
            nat_destination_ip: crate::text::opt_view(self.nat_destination_ip),
            nat_destination_port: self.nat_destination_port,
            upload_bytes: self.upload_bytes,
            download_bytes: self.download_bytes,
            packet_count: self.packet_count,
            domain: attribution_view(self.domain),
            connection_state: self.connection_state,
        }
    }
}

impl Clone for Flow {
    fn clone(&self) -> (r: Self)
        ensures
            r == *self,
    {
        Flow {
            flow_id: self.flow_id.clone(),
            first_seen: self.first_seen,
            last_seen: self.last_seen,
            protocol: self.protocol.clone(),
            direction: self.direction,
            lan_interface: self.lan_interface.clone(),
            wan_interface: self.wan_interface.clone(),
            client_mac: self.client_mac.clone(),
            client_ip: self.client_ip.clone(),
            client_port: self.client_port,
            destination_ip: self.destination_ip.clone(),
            destination_port: self.destination_port,
            nat_source_ip: clone_opt(&self.nat_source_ip),
            nat_source_port: self.nat_source_port,
            nat_destination_ip: clone_opt(&self.nat_destination_ip),
            nat_destination_port: self.nat_destination_port,
            upload_bytes: self.upload_bytes,
            download_bytes: self.download_bytes,
            packet_count: self.packet_count,
            domain: clone_attribution(&self.domain),
            connection_state: self.connection_state,
        }
    }
}

/// The first rule that a flow breaks, if it breaks one.
pub open spec fn flow_fault(f: FlowView) -> Option<Seq<char>> {
    if f.flow_id.len() == 0 {
        Some("flow_id must not be empty"@)
    } else if f.client_mac.len() == 0 {
        Some("client_mac must not be empty"@)
    } else if f.client_ip.len() == 0 || f.destination_ip.len() == 0 {
        Some("IP addresses must not be empty"@)
    } else if f.protocol.len() == 0 {
        Some("protocol must not be empty"@)
    } else if f.first_seen > f.last_seen {
        Some("first_seen must not be after last_seen"@)
    } else if !(f.nat_source_ip is Some == f.nat_source_port is Some && f.nat_source_ip is Some
        == f.nat_destination_ip is Some && f.nat_source_ip is Some
        == f.nat_destination_port is Some) {
        Some("NAT mapping fields must be provided together"@)
    } else {
        None
    }
}

/// The flow keeps every rule.
pub open spec fn flow_valid(f: FlowView) -> bool {
    flow_fault(f) is None
}

impl Flow {
    /// Checks the required fields, the order of the timestamps and the NAT fields.
    pub fn validate(&self) -> (r: Result<(), &'static str>)
        ensures
            match r {
                Ok(_) => flow_fault(self@) is None,
                Err(e) => flow_fault(self@) == Some(e@),
            },
    {
        if is_blank(&self.flow_id) {
            return Err("flow_id must not be empty");
        }
        if is_blank(&self.client_mac) {
            return Err("client_mac must not be empty");
        }
        if is_blank(&self.client_ip) || is_blank(&self.destination_ip) {
            return Err("IP addresses must not be empty");
        }
        if is_blank(&self.protocol) {
            return Err("protocol must not be empty");
        }
        if self.first_seen > self.last_seen {
            return Err("first_seen must not be after last_seen");
        }
        let a = self.nat_source_ip.is_some();
        let b = self.nat_source_port.is_some();
        let c = self.nat_destination_ip.is_some();
        let d = self.nat_destination_port.is_some();
        if (a || b || c || d) && !(a && b && c && d) {
            return Err("NAT mapping fields must be provided together");
        }
        Ok(())
    }
}

/// Tells whether a string has no characters.
pub fn is_blank(s: &String) -> (r: bool)
    ensures
        r == (s@.len() == 0),
{
    proof {
        reveal_strlit("");
        assert(""@.len() == 0);
        if s@.len() == 0 {
            assert(s@ =~= ""@);
        }
    }
    str_eq(s.as_str(), "")
}

/// The accumulated counters of a flow.
#[derive(Debug, Clone, Copy, PartialEq, Eq, Structural)]
pub struct FlowCounters {
    pub upload_bytes: u64,
    pub download_bytes: u64,
    pub packet_count: u64,
}

/// No counter of `current` is below that of `previous`.
pub open spec fn counters_advance(previous: FlowCounters, current: FlowCounters) -> bool {
    &&& previous.upload_bytes <= current.upload_bytes
    &&& previous.download_bytes <= current.download_bytes
    &&& previous.packet_count <= current.packet_count
}

impl FlowCounters {
    /// The counters that a flow carries.
    pub fn from_flow(flow: &Flow) -> (r: Self)
        ensures
            r == (FlowCounters {
                upload_bytes: flow.upload_bytes,
                download_bytes: flow.download_bytes,
                packet_count: flow.packet_count,
            }),
    {
        FlowCounters {
            upload_bytes: flow.upload_bytes,
            download_bytes: flow.download_bytes,
            packet_count: flow.packet_count,
        }
    }

    /// The increase since `previous`; refused when any counter went back.
    pub fn delta_from(self, previous: Self) -> (r: Result<Self, CounterReset>)
        ensures
            match r {
                Ok(d) => {
                    &&& counters_advance(previous, self)
                    &&& previous.upload_bytes + d.upload_bytes == self.upload_bytes
                    &&& previous.download_bytes + d.download_bytes == self.download_bytes
                    &&& previous.packet_count + d.packet_count == self.packet_count
                },
                Err(e) => !counters_advance(previous, self) && e == (CounterReset {
                    previous,
                    current: self,
                }),
            },
    {
        if self.upload_bytes < previous.upload_bytes || self.download_bytes
            < previous.download_bytes || self.packet_count < previous.packet_count {
            return Err(CounterReset { previous, current: self });
        }
        Ok(
            FlowCounters {
                upload_bytes: self.upload_bytes - previous.upload_bytes,
                download_bytes: self.download_bytes - previous.download_bytes,
                packet_count: self.packet_count - previous.packet_count,
            },
        )
    }
}

/// A counter went back between two snapshots of the same flow.
#[derive(Debug, Clone, Copy, PartialEq, Eq, Structural)]
pub struct CounterReset {
    pub previous: FlowCounters,
    pub current: FlowCounters,
}

impl FlowCounters {
    /// How the counters are written in messages.
    pub open spec fn text(self) -> Seq<char> {
        "FlowCounters { upload_bytes: "@ + crate::text::decimal(self.upload_bytes as nat)
            + ", download_bytes: "@ + crate::text::decimal(self.download_bytes as nat)
            + ", packet_count: "@ + crate::text::decimal(self.packet_count as nat) + " }"@
    }

    /// Appends the counters to a message.
    pub fn push_text(&self, out: &mut String)
        ensures
            final(out)@ == old(out)@ + self.text(),
    {
        out.append("FlowCounters { upload_bytes: ");
        push_decimal(out, self.upload_bytes);
        out.append(", download_bytes: ");
        push_decimal(out, self.download_bytes);
        out.append(", packet_count: ");
        push_decimal(out, self.packet_count);
        out.append(" }");
        proof {
            assert(out@ =~= old(out)@ + self.text());
        }
    }
}

impl CounterReset {
    /// The text that describes the reset.
    pub open spec fn text(self) -> Seq<char> {
        "flow counter decreased: previous="@ + self.previous.text() + ", current="@
            + self.current.text()
    }

    /// Describes the reset.
    pub fn message(&self) -> (r: String)
        ensures
            r@ == self.text(),
    {
        let mut out = "flow counter decreased: previous=".to_owned();
        self.previous.push_text(&mut out);
        out.append(", current=");
        self.current.push_text(&mut out);
        out
    }
}

/// Traffic of one device in one minute.
#[derive(Debug, PartialEq, Eq)]
pub struct DeviceMinuteStat {
    pub mac_address: String,
    pub minute_ms: TimestampMs,
    pub upload_bytes: u64,
    pub download_bytes: u64,
}

/// What a DeviceMinuteStat is, as a mathematical value.
#[verifier::ext_equal]
pub struct DeviceMinuteStatView {
    pub mac_address: Seq<char>,
    pub minute_ms: i64,
    pub upload_bytes: u64,
    pub download_bytes: u64,
}

impl View for DeviceMinuteStat {
    type V = DeviceMinuteStatView;

    open spec fn view(&self) -> DeviceMinuteStatView {
        DeviceMinuteStatView {
            mac_address: self.mac_address@,
            minute_ms: self.minute_ms,
            upload_bytes: self.upload_bytes,
            download_bytes: self.download_bytes,
        }
    }
}

impl Clone for DeviceMinuteStat {
    fn clone(&self) -> (r: Self)
        ensures
            r == *self,
    {
        DeviceMinuteStat {
            mac_address: self.mac_address.clone(),
            minute_ms: self.minute_ms,
            upload_bytes: self.upload_bytes,
            download_bytes: self.download_bytes,
        }
    }
}

/// Traffic of one device with one domain in one minute.
#[derive(Debug, PartialEq, Eq)]
pub struct DomainMinuteStat {
    pub mac_address: String,
    pub domain: String,
    pub minute_ms: TimestampMs,
    pub upload_bytes: u64,
    pub download_bytes: u64,
    pub source: DomainSource,
    pub confidence: DomainConfidence,
}

/// What a DomainMinuteStat is, as a mathematical value.
#[verifier::ext_equal]
pub struct DomainMinuteStatView {
    pub mac_address: Seq<char>,
    pub domain: Seq<char>,
    pub minute_ms: i64,
    pub upload_bytes: u64,
    pub download_bytes: u64,
    pub source: DomainSource,
    pub confidence: DomainConfidence,
}

impl View for DomainMinuteStat {
    type V = DomainMinuteStatView;

    open spec fn view(&self) -> DomainMinuteStatView {
        DomainMinuteStatView {
            mac_address: self.mac_address@,
            domain: self.domain@,
            minute_ms: self.minute_ms,
            upload_bytes: self.upload_bytes,
            download_bytes: self.download_bytes,
            source: self.source,
            confidence: self.confidence,
        }
    }
}

impl Clone for DomainMinuteStat {
    fn clone(&self) -> (r: Self)
        ensures
            r == *self,
    {
        DomainMinuteStat {
            mac_address: self.mac_address.clone(),
            domain: self.domain.clone(),
            minute_ms: self.minute_ms,
            upload_bytes: self.upload_bytes,
            download_bytes: self.download_bytes,
            source: self.source,
            confidence: self.confidence,
        }
    }
}

/// Traffic of one device with one domain over a period.
#[derive(Debug, PartialEq, Eq)]
pub struct DomainTrafficSummary {
    pub domain: String,
    pub upload_bytes: u64,
    pub download_bytes: u64,
    pub total_bytes: u64,
    pub source: DomainSource,
    pub confidence: DomainConfidence,
}

/// What a DomainTrafficSummary is, as a mathematical value.
#[verifier::ext_equal]
pub struct DomainTrafficSummaryView {
    pub domain: Seq<char>,
    pub upload_bytes: u64,
    pub download_bytes: u64,
    pub total_bytes: u64,
    pub source: DomainSource,
    pub confidence: DomainConfidence,
}

impl View for DomainTrafficSummary {
    type V = DomainTrafficSummaryView;

    open spec fn view(&self) -> DomainTrafficSummaryView {
        DomainTrafficSummaryView {
            domain: self.domain@,
            upload_bytes: self.upload_bytes,
            download_bytes: self.download_bytes,
            total_bytes: self.total_bytes,
            source: self.source,
            confidence: self.confidence,
        }
    }
}

impl Clone for DomainTrafficSummary {
    fn clone(&self) -> (r: Self)
        ensures
            r == *self,
    {
        DomainTrafficSummary {
            domain: self.domain.clone(),
            upload_bytes: self.upload_bytes,
            download_bytes: self.download_bytes,
            total_bytes: self.total_bytes,
            source: self.source,
            confidence: self.confidence,
        }
    }
}

/// What a deletion removed.
#[derive(Debug, Clone, Copy, PartialEq, Eq, Structural)]
pub struct DataDeletionResult {
    pub devices_deleted: usize,
    pub flows_deleted: usize,
    pub flows_redacted: usize,
    pub device_minutes_deleted: usize,
    pub domain_minutes_deleted: usize,
    pub contributions_deleted: usize,
}

impl Default for DataDeletionResult {
    fn default() -> (r: Self)
        ensures
            r == (DataDeletionResult {
                devices_deleted: 0,
                flows_deleted: 0,
                flows_redacted: 0,
                device_minutes_deleted: 0,
                domain_minutes_deleted: 0,
                contributions_deleted: 0,
            }),
    {
        DataDeletionResult {
            devices_deleted: 0,
            flows_deleted: 0,
            flows_redacted: 0,
            device_minutes_deleted: 0,
            domain_minutes_deleted: 0,
            contributions_deleted: 0,
        }
    }
}

/// A range of time from `from_ms` up to, not including, `to_ms`.
#[derive(Debug, Clone, Copy, PartialEq, Eq, Structural)]
pub struct DataTimeRange {
    pub from_ms: i64,
    pub to_ms: i64,
}

impl DataTimeRange {
    /// Makes a range from two bounds, both of which must be given and leave something between them.
    pub fn new(from_ms: Option<i64>, to_ms: Option<i64>) -> (r: Result<Self, &'static str>)
        ensures
            match r {
                Ok(range) => from_ms == Some(range.from_ms) && to_ms == Some(range.to_ms)
                    && range.from_ms < range.to_ms,
                Err(e) => {
                    &&& from_ms is None || to_ms is None || from_ms->0 >= to_ms->0
                    &&& e@ == "time range needs a start before its end"@
                },
            },
    {
        match (from_ms, to_ms) {
            (Some(from_ms), Some(to_ms)) => if from_ms < to_ms {
                Ok(DataTimeRange { from_ms, to_ms })
            } else {
                Err("time range needs a start before its end")
            },
            _ => Err("time range needs a start before its end"),
        }
    }
}

/// The traffic of a device's recent flows.
#[derive(Debug, Clone, Copy, PartialEq, Eq, Structural)]
pub struct DeviceFlowSummary {
    pub upload_bytes: u64,
    pub download_bytes: u64,
    pub flow_count: usize,
    pub last_seen: Option<TimestampMs>,
}

/// The flow next to which a page begins.
#[derive(Debug, PartialEq, Eq)]
pub struct FlowPageAnchor {
    pub last_seen: TimestampMs,
    pub flow_id: String,
}

/// Which way a page goes from its anchor.
#[derive(Debug, Clone, Copy, PartialEq, Eq, Structural)]
pub enum FlowPageDirection {
    Older,
    Newer,
}

/// A binding that was resolved and may apply to flows that were stored before.
#[derive(Debug, PartialEq, Eq)]
pub struct ResolvedDomainBinding {
    pub client_mac: String,
    pub target_ip: String,
    pub attribution: DomainAttribution,
}

/// Normalizes a domain name given by a user; a malformed name is refused.
pub fn normalize_domain_name(value: &str) -> (r: Result<String, &'static str>)
    ensures
        match r {
            Ok(domain) => crate::dns::domain_of(value@) == Some(domain@),
            Err(e) => crate::dns::domain_of(value@) is None && e@ == "invalid domain name"@,
        },
{
    match crate::dns::normalize_domain(value) {
        Some(domain) => Ok(domain),
        None => Err("invalid domain name"),
    }
}

} // verus!
