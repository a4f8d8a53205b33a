//! What is stored, and which commands keep it up to date.
//!
//! Flows are stored with accumulated counters. Each increase is added to the minute in which the
//! flow was last seen: to the device's traffic, to the domain's traffic where the flow has one, and
//! to a ledger that remembers what each flow has contributed to each minute. When a flow is
//! attributed to another domain, the ledger says what moves from the one to the other.
use vstd::prelude::*;
use vstd::string::*;

use crate::domain::{
    clone_attribution, floor_to_minute_ms, DataDeletionResult, Device, DeviceFlowSummary,
    DeviceMinuteStat, DomainAttribution, DomainConfidence, DomainMinuteStat, DomainSource,
    DomainTrafficSummary, Flow, FlowCounters, FlowPageAnchor, FlowPageDirection,
    ResolvedDomainBinding,
};
use crate::sql::{int_at, opt_int_at, opt_text_at, SqlValue, StorageError};
use crate::text::{clone_opt, str_eq};

verus! {

/// The error for a counter that does not fit.
pub open spec fn range_error(field: Seq<char>) -> crate::sql::ErrorView {
    crate::sql::ErrorView::InvalidCounter(field + " exceeds SQLite INTEGER range"@)
}

/// The error for a stored counter that is negative.
pub open spec fn negative_error(field: Seq<char>) -> crate::sql::ErrorView {
    crate::sql::ErrorView::InvalidCounter("stored "@ + field + " must not be negative"@)
}

/// Turns a counter into a stored integer.
pub fn counter_to_sqlite_integer(value: u64, field: &str) -> (r: Result<i64, StorageError>)
    ensures
        match r {
            Ok(n) => n == value,
            Err(e) => value > i64::MAX && e@ == range_error(field@),
        },
{
    if value <= i64::MAX as u64 {
        Ok(value as i64)
    } else {
        let mut message = field.to_owned();
        message.append(" exceeds SQLite INTEGER range");
        Err(StorageError::InvalidCounter(message))
    }
}

/// Turns a stored integer back into a counter.
pub fn counter_from_sqlite_integer(value: i64, field: &str) -> (r: Result<u64, StorageError>)
    ensures
        match r {
            Ok(n) => n == value,
            Err(e) => value < 0 && e@ == negative_error(field@),
        },
{
    if value >= 0 {
        Ok(value as u64)
    } else {
        let mut message = "stored ".to_owned();
        message.append(field);
        message.append(" must not be negative");
        Err(StorageError::InvalidCounter(message))
    }
}

/// How much a confidence weighs.
pub open spec fn confidence_weight(c: DomainConfidence) -> int {
    match c {
        DomainConfidence::High => 2,
        DomainConfidence::Low => 1,
        DomainConfidence::Unknown => 0,
    }
}

/// How much a source weighs.
pub open spec fn source_weight(s: DomainSource) -> int {
    match s {
        DomainSource::Dns => 2,
        DomainSource::Sni => 1,
        DomainSource::Unknown => 0,
    }
}

/// The weight of a confidence.
pub fn confidence_rank(confidence: &DomainConfidence) -> (r: u8)
    ensures
        r == confidence_weight(*confidence),
{
    match confidence {
        DomainConfidence::High => 2,
        DomainConfidence::Low => 1,
        DomainConfidence::Unknown => 0,
    }
}

/// The weight of a source.
pub fn source_rank(source: &DomainSource) -> (r: u8)
    ensures
        r == source_weight(*source),
{
    match source {
        DomainSource::Dns => 2,
        DomainSource::Sni => 1,
        DomainSource::Unknown => 0,
    }
}

/// How much an attribution weighs: first by confidence, then by source.
pub open spec fn attribution_weight(a: crate::domain::AttributionView) -> int {
    confidence_weight(a.confidence) * 3 + source_weight(a.source)
}

/// Of a stored and an incoming attribution the weightier one; of two that weigh the same the one
/// that was made later, the incoming one where both were made at the same time.
pub open spec fn effective(
    stored: Option<crate::domain::AttributionView>,
    incoming: Option<crate::domain::AttributionView>,
) -> Option<crate::domain::AttributionView> {
    match (stored, incoming) {
        (None, None) => None,
        (Some(s), None) => Some(s),
        (None, Some(i)) => Some(i),
        (Some(s), Some(i)) => if attribution_weight(i) > attribution_weight(s) || (
        attribution_weight(i) == attribution_weight(s) && i.associated_at >= s.associated_at) {
            Some(i)
        } else {
            Some(s)
        },
    }
}

/// Decides between a stored and an incoming attribution. A stored one outlives a snapshot that has
/// none or a weaker one.
pub fn effective_attribution(
    stored: &Option<DomainAttribution>,
    incoming: &Option<DomainAttribution>,
) -> (r: Option<DomainAttribution>)
    ensures
        crate::domain::attribution_view(r) == effective(
            crate::domain::attribution_view(*stored),
            crate::domain::attribution_view(*incoming),
        ),
{
    match (stored, incoming) {
        (None, None) => None,
        (Some(s), None) => Some(s.clone()),
        (None, Some(i)) => Some(i.clone()),
        (Some(s), Some(i)) => {
            let stored_confidence: u8 = confidence_rank(&s.confidence);
            let stored_source: u8 = source_rank(&s.source);
            let incoming_confidence: u8 = confidence_rank(&i.confidence);
            let incoming_source: u8 = source_rank(&i.source);
            let heavier = incoming_confidence > stored_confidence || (incoming_confidence
                == stored_confidence && incoming_source > stored_source);
            let level = incoming_confidence == stored_confidence && incoming_source
                == stored_source;
            if heavier || (level && i.associated_at >= s.associated_at) {
                Some(i.clone())
            } else {
                Some(s.clone())
            }
        },
    }
}

/// The weight of what is stored never falls, and nothing that is stored is lost to a snapshot
/// without an attribution.
pub proof fn effective_attribution_never_weakens(
    stored: crate::domain::AttributionView,
    incoming: Option<crate::domain::AttributionView>,
)
    ensures
        effective(Some(stored), incoming) is Some,
        attribution_weight(effective(Some(stored), incoming)->0) >= attribution_weight(stored),
        incoming is None ==> effective(Some(stored), incoming) == Some(stored),
{
}

/// Deciding again for the same incoming attribution changes nothing.
pub proof fn effective_attribution_is_stable(
    stored: Option<crate::domain::AttributionView>,
    incoming: Option<crate::domain::AttributionView>,
)
    ensures
        effective(effective(stored, incoming), incoming) == effective(stored, incoming),
{
}

/// Tells whether two attributions are the same in every respect.
pub fn same_attribution(a: &DomainAttribution, b: &DomainAttribution) -> (r: bool)
    ensures
        r == (a@ == b@),
{
    let times = match (a.expires_at, b.expires_at) {
        (Some(x), Some(y)) => x == y,
        (None, None) => true,
        _ => false,
    };
    times && a.associated_at == b.associated_at && a.source == b.source && a.confidence
        == b.confidence && str_eq(a.domain.as_str(), b.domain.as_str())
}

/// The source that a stored form stands for; an unknown form is the unknown source.
pub open spec fn source_or_unknown(s: Seq<char>) -> DomainSource {
    match DomainSource::from_text(s) {
        Some(v) => v,
        None => DomainSource::Unknown,
    }
}

/// The confidence that a stored form stands for; an unknown form is the unknown confidence.
pub open spec fn confidence_or_unknown(s: Seq<char>) -> DomainConfidence {
    match DomainConfidence::from_text(s) {
        Some(v) => v,
        None => DomainConfidence::Unknown,
    }
}

pub fn parse_source(s: &str) -> (r: DomainSource)
    ensures
        r == source_or_unknown(s@),
{
    match DomainSource::parse(s) {
        Some(v) => v,
        None => DomainSource::Unknown,
    }
}

pub fn parse_confidence(s: &str) -> (r: DomainConfidence)
    ensures
        r == confidence_or_unknown(s@),
{
    match DomainConfidence::parse(s) {
        Some(v) => v,
        None => DomainConfidence::Unknown,
    }
}

/// The attribution that five stored columns stand for.
pub open spec fn stored_attribution(
    domain: Option<Seq<char>>,
    source: Option<Seq<char>>,
    confidence: Option<Seq<char>>,
    associated_at: Option<i64>,
    expires_at: Option<i64>,
) -> Option<crate::domain::AttributionView> {
    match domain {
        Some(d) => Some(
            crate::domain::AttributionView {
                domain: d,
                source: match source {
                    Some(s) => source_or_unknown(s),
                    None => DomainSource::Unknown,
                },
                confidence: match confidence {
                    Some(c) => confidence_or_unknown(c),
                    None => DomainConfidence::Unknown,
                },
                associated_at: match associated_at {
                    Some(t) => t,
                    None => 0,
                },
                expires_at,
            },
        ),
        None => None,
    }
}

/// Reads an attribution from its five columns.
pub fn attribution_from_columns(
    domain: Option<String>,
    source: Option<String>,
    confidence: Option<String>,
    associated_at: Option<i64>,
    expires_at: Option<i64>,
) -> (r: Option<DomainAttribution>)
    ensures
        crate::domain::attribution_view(r) == stored_attribution(
            crate::text::opt_view(domain),
            crate::text::opt_view(source),
            crate::text::opt_view(confidence),
            associated_at,
            expires_at,
        ),
{
    match domain {
        Some(domain) => Some(
            DomainAttribution {
                domain,
                source: match &source {
                    Some(s) => parse_source(s.as_str()),
                    None => DomainSource::Unknown,
                },
                confidence: match &confidence {
                    Some(c) => parse_confidence(c.as_str()),
                    None => DomainConfidence::Unknown,
                },
                associated_at: match associated_at {
                    Some(t) => t,
                    None => 0,
                },
                expires_at,
            },
        ),
        None => None,
    }
}

/// What is stored of a flow and matters for its next snapshot.
#[derive(Debug)]
pub struct StoredFlowState {
    pub counters: FlowCounters,
    pub last_seen: i64,
    pub domain: Option<DomainAttribution>,
}

/// What a stored state is, as a mathematical value.
#[verifier::ext_equal]
pub struct StoredView {
    pub counters: FlowCounters,
    pub last_seen: i64,
    pub domain: Option<crate::domain::AttributionView>,
}

impl View for StoredFlowState {
    type V = StoredView;

    open spec fn view(&self) -> StoredView {
        StoredView {
            counters: self.counters,
            last_seen: self.last_seen,
            domain: crate::domain::attribution_view(self.domain),
        }
    }
}

/// A counter column.
pub open spec fn counter_column(row: Seq<crate::sql::SqlView>, i: int, field: Seq<char>) -> Result<
    u64,
    crate::sql::ErrorView,
> {
    match crate::sql::int_column(row, i) {
        Some(n) => if n >= 0 {
            Ok(n as u64)
        } else {
            Err(negative_error(field))
        },
        None => Err(crate::sql::ErrorView::Column),
    }
}

fn counter_at(row: &Vec<SqlValue>, i: usize, field: &str) -> (r: Result<u64, StorageError>)
    ensures
        match (r, counter_column(crate::sql::row_view(row@), i as int, field@)) {
            (Ok(n), Ok(m)) => n == m,
            (Err(e), Err(v)) => e@ == v,
            _ => false,
        },
{
    match int_at(row, i) {
        Ok(n) => counter_from_sqlite_integer(n, field),
        Err(e) => Err(e),
    }
}

/// The attribution in five columns from position `i` on.
pub open spec fn attribution_columns(row: Seq<crate::sql::SqlView>, i: int) -> Option<
    Option<crate::domain::AttributionView>,
> {
    if crate::sql::opt_text_column(row, i) is Some && crate::sql::opt_text_column(
        row,
        i + 1,
    ) is Some && crate::sql::opt_text_column(row, i + 2) is Some && crate::sql::opt_int_column(
        row,
        i + 3,
    ) is Some && crate::sql::opt_int_column(row, i + 4) is Some {
        Some(
            stored_attribution(
                crate::sql::opt_text_column(row, i)->0,
                crate::sql::opt_text_column(row, i + 1)->0,
                crate::sql::opt_text_column(row, i + 2)->0,
                crate::sql::opt_int_column(row, i + 3)->0,
                crate::sql::opt_int_column(row, i + 4)->0,
            ),
        )
    } else {
        None
    }
}

fn attribution_at(row: &Vec<SqlValue>, i: usize) -> (r: Result<
    Option<DomainAttribution>,
    StorageError,
>)
    requires
        i <= 100,
    ensures
        match r {
            Ok(a) => attribution_columns(crate::sql::row_view(row@), i as int) == Some(
                crate::domain::attribution_view(a),
            ),
            Err(e) => attribution_columns(crate::sql::row_view(row@), i as int) is None && e@
                == crate::sql::ErrorView::Column,
        },
{
    let domain = match opt_text_at(row, i) {
        Ok(v) => v,
        Err(e) => {
            return Err(e);
        },
    };
    let source = match opt_text_at(row, i + 1) {
        Ok(v) => v,
        Err(e) => {
            return Err(e);
        },
    };
    let confidence = match opt_text_at(row, i + 2) {
        Ok(v) => v,
        Err(e) => {
            return Err(e);
        },
    };
    let associated_at: Option<i64> = match opt_int_at(row, i + 3) {
        Ok(v) => v,
        Err(e) => {
            return Err(e);
        },
    };
    let expires_at: Option<i64> = match opt_int_at(row, i + 4) {
        Ok(v) => v,
        Err(e) => {
            return Err(e);
        },
    };
    Ok(attribution_from_columns(domain, source, confidence, associated_at, expires_at))
}

/// The state that a row of the state query stands for.
pub open spec fn stored_state(row: Seq<crate::sql::SqlView>) -> Result<
    StoredView,
    crate::sql::ErrorView,
> {
    match counter_column(row, 0, "upload_bytes"@) {
        Err(e) => Err(e),
        Ok(upload_bytes) => match counter_column(row, 1, "download_bytes"@) {
            Err(e) => Err(e),
            Ok(download_bytes) => match counter_column(row, 2, "packet_count"@) {
                Err(e) => Err(e),
                Ok(packet_count) => if crate::sql::int_column(row, 3) is None
                    || attribution_columns(row, 4) is None {
                    Err(crate::sql::ErrorView::Column)
                } else {
                    Ok(
                        StoredView {
                            counters: FlowCounters { upload_bytes, download_bytes, packet_count },
                            last_seen: crate::sql::int_column(row, 3)->0,
                            domain: attribution_columns(row, 4)->0,
                        },
                    )
                },
            },
        },
    }
}

/// Reads the state of a flow from a row of the state query.
pub fn load_stored_flow_state(row: &Vec<SqlValue>) -> (r: Result<StoredFlowState, StorageError>)
    ensures
        match (r, stored_state(crate::sql::row_view(row@))) {
            (Ok(s), Ok(v)) => s@ == v,
            (Err(e), Err(v)) => e@ == v,
            _ => false,
        },
{
    let upload_bytes: u64 = match counter_at(row, 0, "upload_bytes") {
        Ok(v) => v,
        Err(e) => {
            return Err(e);
        },
    };
    let download_bytes: u64 = match counter_at(row, 1, "download_bytes") {
        Ok(v) => v,
        Err(e) => {
            return Err(e);
        },
    };
    let packet_count: u64 = match counter_at(row, 2, "packet_count") {
        Ok(v) => v,
        Err(e) => {
            return Err(e);
        },
    };
    let last_seen: i64 = match int_at(row, 3) {
        Ok(v) => v,
        Err(e) => {
            return Err(e);
        },
    };
    match attribution_at(row, 4) {
        Ok(domain) => Ok(
            StoredFlowState {
                counters: FlowCounters { upload_bytes, download_bytes, packet_count },
                last_seen,
                domain,
            },
        ),
        Err(e) => Err(e),
    }
}

/// What a flow has contributed to one minute.
#[derive(Debug)]
pub struct Contribution {
    pub minute_ms: i64,
    pub upload_bytes: u64,
    pub download_bytes: u64,
    pub domain: Option<DomainAttribution>,
}

/// What a contribution is, as a mathematical value.
#[verifier::ext_equal]
pub struct ContributionView {
    pub minute_ms: i64,
    pub upload_bytes: u64,
    pub download_bytes: u64,
    pub domain: Option<crate::domain::AttributionView>,
}

impl View for Contribution {
    type V = ContributionView;

    open spec fn view(&self) -> ContributionView {
        ContributionView {
            minute_ms: self.minute_ms,
            upload_bytes: self.upload_bytes,
            download_bytes: self.download_bytes,
            domain: crate::domain::attribution_view(self.domain),
        }
    }
}

/// The views of a list of contributions.
pub open spec fn contributions_view(s: Seq<Contribution>) -> Seq<ContributionView> {
    s.map_values(|c: Contribution| c@)
}

/// The contribution that a row of the ledger query stands for.
pub open spec fn ledger_entry(row: Seq<crate::sql::SqlView>) -> Result<
    ContributionView,
    crate::sql::ErrorView,
> {
    match crate::sql::int_column(row, 0) {
        None => Err(crate::sql::ErrorView::Column),
        Some(minute_ms) => match counter_column(row, 1, "upload_bytes"@) {
            Err(e) => Err(e),
            Ok(upload_bytes) => match counter_column(row, 2, "download_bytes"@) {
                Err(e) => Err(e),
                Ok(download_bytes) => match attribution_columns(row, 3) {
                    None => Err(crate::sql::ErrorView::Column),
                    Some(domain) => Ok(
                        ContributionView { minute_ms, upload_bytes, download_bytes, domain },
                    ),
                },
            },
        },
    }
}

/// The contributions that the rows of the ledger query stand for; the first bad row decides the
/// error.
pub open spec fn ledger_of(rows: Seq<Seq<crate::sql::SqlView>>) -> Result<
    Seq<ContributionView>,
    crate::sql::ErrorView,
>
    decreases rows.len(),
{
    if rows.len() == 0 {
        Ok(Seq::<ContributionView>::empty())
    } else {
        match ledger_of(rows.drop_last()) {
            Err(e) => Err(e),
            Ok(before) => match ledger_entry(rows.last()) {
                Err(e) => Err(e),
                Ok(c) => Ok(before.push(c)),
            },
        }
    }
}

fn load_contribution(row: &Vec<SqlValue>) -> (r: Result<Contribution, StorageError>)
    ensures
        match (r, ledger_entry(crate::sql::row_view(row@))) {
            (Ok(c), Ok(v)) => c@ == v,
            (Err(e), Err(v)) => e@ == v,
            _ => false,
        },
{
    let minute_ms: i64 = match int_at(row, 0) {
        Ok(v) => v,
        Err(e) => {
            return Err(e);
        },
    };
    let upload_bytes: u64 = match counter_at(row, 1, "upload_bytes") {
        Ok(v) => v,
        Err(e) => {
            return Err(e);
        },
    };
    let download_bytes: u64 = match counter_at(row, 2, "download_bytes") {
        Ok(v) => v,
        Err(e) => {
            return Err(e);
        },
    };
    match attribution_at(row, 3) {
        Ok(domain) => Ok(Contribution { minute_ms, upload_bytes, download_bytes, domain }),
        Err(e) => Err(e),
    }
}

/// An error that rows up to some point give stays the error of all of them.
proof fn lemma_ledger_error(rows: Seq<Seq<crate::sql::SqlView>>, i: int)
    requires
        0 <= i <= rows.len(),
        ledger_of(rows.take(i)) is Err,
    ensures
        ledger_of(rows) == ledger_of(rows.take(i)),
    decreases rows.len() - i,
{
    if i < rows.len() {
        assert(rows.take(i + 1).drop_last() =~= rows.take(i));
        lemma_ledger_error(rows, i + 1);
    } else {
        assert(rows.take(i) =~= rows);
    }
}

/// Reads the contributions of a flow from the rows of the ledger query.
pub fn load_contributions(rows: &Vec<Vec<SqlValue>>) -> (r: Result<
    Vec<Contribution>,
    StorageError,
>)
    ensures
        match (r, ledger_of(crate::sql::rows_view(rows@))) {
            (Ok(c), Ok(v)) => contributions_view(c@) == v,
            (Err(e), Err(v)) => e@ == v,
            _ => false,
        },
{
    let ghost all = crate::sql::rows_view(rows@);
    let mut out: Vec<Contribution> = Vec::new();
    let mut i: usize = 0;
    proof {
        assert(all.take(0) =~= Seq::<Seq<crate::sql::SqlView>>::empty());
        assert(contributions_view(out@) =~= Seq::<ContributionView>::empty());
    }
    while i < rows.len()
        invariant
            all == crate::sql::rows_view(rows@),
            i <= rows@.len(),
            ledger_of(all.take(i as int)) == Ok::<Seq<ContributionView>, crate::sql::ErrorView>(
                contributions_view(out@),
            ),
        decreases rows@.len() - i,
    {
        proof {
            assert(all.take(i + 1).drop_last() =~= all.take(i as int));
            assert(all.take(i + 1).last() == crate::sql::row_view(rows@[i as int]@));
        }
        match load_contribution(&rows[i]) {
            Ok(c) => {
                let ghost before = out@;
                let ghost v = c@;
                out.push(c);
                proof {
                    assert(contributions_view(out@) =~= contributions_view(before).push(v));
                }
            },
            Err(e) => {
                proof {
                    lemma_ledger_error(all, i + 1);
                }
                return Err(e);
            },
        }
        i = i + 1;
    }
    proof {
        assert(all.take(i as int) =~= all);
    }
    Ok(out)
}

/// One change to what is stored.
#[derive(Debug, PartialEq, Eq)]
#[allow(inconsistent_fields)]
pub enum Statement {
    /// Inserts a device, or updates its address, and its name where one is given.
    UpsertDevice { mac_address: String, display_name: Option<String>, current_ip: Option<String> },
    /// Inserts a flow, or updates its last time, counters, attribution, state, and its NAT mapping
    /// where one is given.
    UpsertFlow { flow: Flow },
    /// Adds to a device's traffic in a minute.
    AddDeviceMinute { mac_address: String, minute_ms: i64, upload_bytes: i64, download_bytes: i64 },
    /// Adds to a domain's traffic in a minute.
    AddDomainMinute {
        mac_address: String,
        attribution: DomainAttribution,
        minute_ms: i64,
        upload_bytes: i64,
        download_bytes: i64,
    },
    /// Takes from a domain's traffic in a minute, and drops the minute where nothing is left. Fails
    /// where there is less than what is to be taken.
    SubtractDomainMinute {
        mac_address: String,
        domain: String,
        minute_ms: i64,
        upload_bytes: i64,
        download_bytes: i64,
    },
    /// Replaces what a domain's minute says of its attribution.
    MarkDomainMinute { mac_address: String, attribution: DomainAttribution, minute_ms: i64 },
    /// Adds to what a flow has contributed to a minute.
    AddContribution {
        flow_id: String,
        mac_address: String,
        minute_ms: i64,
        upload_bytes: i64,
        download_bytes: i64,
        attribution: Option<DomainAttribution>,
    },
    /// Replaces the attribution of everything that a flow has contributed.
    MarkContributions { flow_id: String, attribution: DomainAttribution },
    /// Replaces the attribution of a flow.
    SetFlowDomain { flow_id: String, attribution: DomainAttribution },
    /// Deletes the traffic of a device.
    DeleteDeviceMinutesOf { mac_address: String },
    /// Deletes the domain traffic of a device.
    DeleteDomainMinutesOf { mac_address: String },
    /// Deletes the flows of a device with what they have contributed.
    DeleteFlowsOf { mac_address: String },
    /// Deletes a device.
    DeleteDevice { mac_address: String },
    /// Deletes what was contributed to a domain, by one device or by all.
    DeleteContributionsTo { mac_address: Option<String>, domain: String },
    /// Deletes the traffic of a domain, with one device or with all.
    DeleteDomainMinutesFor { mac_address: Option<String>, domain: String },
    /// Removes the attribution to a domain from the flows of one device or of all.
    RedactFlows { mac_address: Option<String>, domain: String },
    /// Deletes device traffic in a range of time.
    DeleteDeviceMinutesIn { from_ms: i64, to_ms: i64 },
    /// Deletes domain traffic in a range of time.
    DeleteDomainMinutesIn { from_ms: i64, to_ms: i64 },
    /// Deletes what was contributed in a range of time.
    DeleteContributionsIn { from_ms: i64, to_ms: i64 },
    /// Deletes the flows that overlap a range of time with what they have contributed.
    DeleteFlowsIn { from_ms: i64, to_ms: i64 },
    /// Deletes the flows last seen before a time with what they have contributed.
    DeleteFlowsBefore { cutoff_ms: i64 },
    /// Deletes device traffic before a time.
    DeleteDeviceMinutesBefore { cutoff_ms: i64 },
    /// Deletes what was contributed before a time.
    DeleteContributionsBefore { cutoff_ms: i64 },
    /// Deletes domain traffic before a time.
    DeleteDomainMinutesBefore { cutoff_ms: i64 },
    /// Replaces the name of a device.
    RenameDevice { mac_address: String, display_name: Option<String> },
}

/// What a change is, as a mathematical value.
#[verifier::ext_equal]
#[allow(inconsistent_fields)]
pub enum StatementView {
    UpsertDevice {
        mac_address: Seq<char>,
        display_name: Option<Seq<char>>,
        current_ip: Option<Seq<char>>,
    },
    UpsertFlow { flow: crate::domain::FlowView },
    AddDeviceMinute {
        mac_address: Seq<char>,
        minute_ms: i64,
        upload_bytes: i64,
        download_bytes: i64,
    },
    AddDomainMinute {
        mac_address: Seq<char>,
        attribution: crate::domain::AttributionView,
        minute_ms: i64,
        upload_bytes: i64,
        download_bytes: i64,
    },
    SubtractDomainMinute {
        mac_address: Seq<char>,
        domain: Seq<char>,
        minute_ms: i64,
        upload_bytes: i64,
        download_bytes: i64,
    },
    MarkDomainMinute {
        mac_address: Seq<char>,
        attribution: crate::domain::AttributionView,
        minute_ms: i64,
    },
    AddContribution {
        flow_id: Seq<char>,
        mac_address: Seq<char>,
        minute_ms: i64,
        upload_bytes: i64,
        download_bytes: i64,
        attribution: Option<crate::domain::AttributionView>,
    },
    MarkContributions { flow_id: Seq<char>, attribution: crate::domain::AttributionView },
    SetFlowDomain { flow_id: Seq<char>, attribution: crate::domain::AttributionView },
    DeleteDeviceMinutesOf { mac_address: Seq<char> },
    DeleteDomainMinutesOf { mac_address: Seq<char> },
    DeleteFlowsOf { mac_address: Seq<char> },
    DeleteDevice { mac_address: Seq<char> },
    DeleteContributionsTo { mac_address: Option<Seq<char>>, domain: Seq<char> },
    DeleteDomainMinutesFor { mac_address: Option<Seq<char>>, domain: Seq<char> },
    RedactFlows { mac_address: Option<Seq<char>>, domain: Seq<char> },
    DeleteDeviceMinutesIn { from_ms: i64, to_ms: i64 },
    DeleteDomainMinutesIn { from_ms: i64, to_ms: i64 },
    DeleteContributionsIn { from_ms: i64, to_ms: i64 },
    DeleteFlowsIn { from_ms: i64, to_ms: i64 },
    DeleteFlowsBefore { cutoff_ms: i64 },
    DeleteDeviceMinutesBefore { cutoff_ms: i64 },
    DeleteContributionsBefore { cutoff_ms: i64 },
    DeleteDomainMinutesBefore { cutoff_ms: i64 },
    RenameDevice { mac_address: Seq<char>, display_name: Option<Seq<char>> },
}

impl View for Statement {
    type V = StatementView;

    open spec fn view(&self) -> StatementView {
        match self {
            Statement::UpsertDevice {
                mac_address,
                display_name,
                current_ip,
            } => StatementView::UpsertDevice {
                mac_address: mac_address@,
                display_name: crate::text::opt_view(*display_name),
                current_ip: crate::text::opt_view(*current_ip),
            },
            Statement::UpsertFlow { flow } => StatementView::UpsertFlow {
                flow: flow@,
            },
            Statement::AddDeviceMinute {
                mac_address,
                minute_ms,
                upload_bytes,
                download_bytes,
            } => StatementView::AddDeviceMinute {
                mac_address: mac_address@,
                minute_ms: *minute_ms,
                upload_bytes: *upload_bytes,
                download_bytes: *download_bytes,
            },
            Statement::AddDomainMinute {
                mac_address,
                attribution,
                minute_ms,
                upload_bytes,
                download_bytes,
            } => StatementView::AddDomainMinute {
                mac_address: mac_address@,
                attribution: attribution@,
                minute_ms: *minute_ms,
                upload_bytes: *upload_bytes,
                download_bytes: *download_bytes,
            },
            Statement::SubtractDomainMinute {
                mac_address,
                domain,
                minute_ms,
                upload_bytes,
                download_bytes,
            } => StatementView::SubtractDomainMinute {
                mac_address: mac_address@,
                domain: domain@,
                minute_ms: *minute_ms,
                upload_bytes: *upload_bytes,
                download_bytes: *download_bytes,
            },
            Statement::MarkDomainMinute {
                mac_address,
                attribution,
                minute_ms,
            } => StatementView::MarkDomainMinute {
                mac_address: mac_address@,
                attribution: attribution@,
                minute_ms: *minute_ms,
            },
            Statement::AddContribution {
                flow_id,
                mac_address,
                minute_ms,
                upload_bytes,
                download_bytes,
                attribution,
            } => StatementView::AddContribution {
                flow_id: flow_id@,
                mac_address: mac_address@,
                minute_ms: *minute_ms,
                upload_bytes: *upload_bytes,
                download_bytes: *download_bytes,
                attribution: crate::domain::attribution_view(*attribution),
            },
            Statement::MarkContributions {
                flow_id,
                attribution,
            } => StatementView::MarkContributions {
                flow_id: flow_id@,
                attribution: attribution@,
            },
            Statement::SetFlowDomain { flow_id, attribution } => StatementView::SetFlowDomain {
                flow_id: flow_id@,
                attribution: attribution@,
            },
            Statement::DeleteDeviceMinutesOf {
                mac_address,
            } => StatementView::DeleteDeviceMinutesOf {
                mac_address: mac_address@,
            },
            Statement::DeleteDomainMinutesOf {
                mac_address,
            } => StatementView::DeleteDomainMinutesOf {
                mac_address: mac_address@,
            },
            Statement::DeleteFlowsOf { mac_address } => StatementView::DeleteFlowsOf {
                mac_address: mac_address@,
            },
            Statement::DeleteDevice { mac_address } => StatementView::DeleteDevice {
                mac_address: mac_address@,
            },
            Statement::DeleteContributionsTo {
                mac_address,
                domain,
            } => StatementView::DeleteContributionsTo {
                mac_address: crate::text::opt_view(*mac_address),
                domain: domain@,
            },
            Statement::DeleteDomainMinutesFor {
                mac_address,
                domain,
            } => StatementView::DeleteDomainMinutesFor {
                mac_address: crate::text::opt_view(*mac_address),
                domain: domain@,
            },
            Statement::RedactFlows { mac_address, domain } => StatementView::RedactFlows {
                mac_address: crate::text::opt_view(*mac_address),
                domain: domain@,
            },
            Statement::DeleteDeviceMinutesIn {
                from_ms,
                to_ms,
            } => StatementView::DeleteDeviceMinutesIn {
                from_ms: *from_ms,
                to_ms: *to_ms,
            },
            Statement::DeleteDomainMinutesIn {
                from_ms,
                to_ms,
            } => StatementView::DeleteDomainMinutesIn {
                from_ms: *from_ms,
                to_ms: *to_ms,
            },
            Statement::DeleteContributionsIn {
                from_ms,
                to_ms,
            } => StatementView::DeleteContributionsIn {
                from_ms: *from_ms,
                to_ms: *to_ms,
            },
            Statement::DeleteFlowsIn { from_ms, to_ms } => StatementView::DeleteFlowsIn {
                from_ms: *from_ms,
                to_ms: *to_ms,
            },
            Statement::DeleteFlowsBefore { cutoff_ms } => {
                StatementView::DeleteFlowsBefore { cutoff_ms: *cutoff_ms }
            },
            Statement::DeleteDeviceMinutesBefore { cutoff_ms } => {
                StatementView::DeleteDeviceMinutesBefore { cutoff_ms: *cutoff_ms }
            },
            Statement::DeleteContributionsBefore { cutoff_ms } => {
                StatementView::DeleteContributionsBefore { cutoff_ms: *cutoff_ms }
            },
            Statement::DeleteDomainMinutesBefore { cutoff_ms } => {
                StatementView::DeleteDomainMinutesBefore { cutoff_ms: *cutoff_ms }
            },
            Statement::RenameDevice { mac_address, display_name } => StatementView::RenameDevice {
                mac_address: mac_address@,
                display_name: crate::text::opt_view(*display_name),
            },
        }
    }
}

/// The views of a list of changes.
pub open spec fn statements_view(s: Seq<Statement>) -> Seq<StatementView> {
    s.map_values(|x: Statement| x@)
}

/// The flow was counted before contributions were kept, and has no attribution yet.
pub open spec fn needs_baseline(stored: StoredView, entries: nat) -> bool {
    &&& stored.domain is None
    &&& stored.counters.upload_bytes > 0 || stored.counters.download_bytes > 0
    &&& entries == 0
}

/// Everything that was counted of a flow, as one contribution to the minute in which it was last
/// seen.
pub open spec fn baseline(stored: StoredView) -> ContributionView {
    ContributionView {
        minute_ms: crate::domain::minute_of(stored.last_seen as int) as i64,
        upload_bytes: stored.counters.upload_bytes,
        download_bytes: stored.counters.download_bytes,
        domain: None,
    }
}

/// The change that records a contribution.
pub open spec fn recorded(
    flow_id: Seq<char>,
    mac: Seq<char>,
    c: ContributionView,
) -> StatementView {
    StatementView::AddContribution {
        flow_id,
        mac_address: mac,
        minute_ms: c.minute_ms,
        upload_bytes: c.upload_bytes as i64,
        download_bytes: c.download_bytes as i64,
        attribution: c.domain,
    }
}

/// The changes that move one contribution to an attribution: its bytes leave the domain that they
/// were counted for and are counted for the new one; where the domain stays, only what is said of
/// the attribution changes.
pub open spec fn moved(
    mac: Seq<char>,
    a: crate::domain::AttributionView,
    c: ContributionView,
) -> Seq<StatementView> {
    let counted = StatementView::AddDomainMinute {
        mac_address: mac,
        attribution: a,
        minute_ms: c.minute_ms,
        upload_bytes: c.upload_bytes as i64,
        download_bytes: c.download_bytes as i64,
    };
    match c.domain {
        Some(before) => if before.domain == a.domain {
            seq![
                StatementView::MarkDomainMinute {
                    mac_address: mac,
                    attribution: a,
                    minute_ms: c.minute_ms,
                },
            ]
        } else {
            seq![
                StatementView::SubtractDomainMinute {
                    mac_address: mac,
                    domain: before.domain,
                    minute_ms: c.minute_ms,
                    upload_bytes: c.upload_bytes as i64,
                    download_bytes: c.download_bytes as i64,
                },
                counted,
            ]
        },
        None => seq![counted],
    }
}

/// The changes that move a list of contributions, in order.
pub open spec fn all_moved(
    mac: Seq<char>,
    a: crate::domain::AttributionView,
    cs: Seq<ContributionView>,
) -> Seq<StatementView>
    decreases cs.len(),
{
    if cs.len() == 0 {
        Seq::<StatementView>::empty()
    } else {
        all_moved(mac, a, cs.drop_last()) + moved(mac, a, cs.last())
    }
}

/// The changes that give everything a flow has contributed a new attribution.
pub open spec fn reconciled(
    flow_id: Seq<char>,
    mac: Seq<char>,
    a: crate::domain::AttributionView,
    cs: Seq<ContributionView>,
) -> Seq<StatementView> {
    all_moved(mac, a, cs).push(StatementView::MarkContributions { flow_id, attribution: a })
}

proof fn lemma_views_append(a: Seq<Statement>, b: Seq<Statement>)
    ensures
        statements_view(a + b) == statements_view(a) + statements_view(b),
{
    assert(statements_view(a + b) =~= statements_view(a) + statements_view(b));
}

proof fn lemma_views_push(a: Seq<Statement>, x: Statement)
    ensures
        statements_view(a.push(x)) == statements_view(a).push(x@),
{
    assert(statements_view(a.push(x)) =~= statements_view(a).push(x@));
}

/// Gives everything that a flow has contributed a new attribution: the bytes of each contribution
/// are moved from the domain that they were counted for to the new one.
pub fn reconcile_flow_contributions(
    flow_id: &str,
    mac_address: &str,
    attribution: &DomainAttribution,
    contributions: &Vec<Contribution>,
) -> (r: Vec<Statement>)
    requires
        forall|i: int|
            0 <= i < contributions@.len() ==> (#[trigger] contributions@[i]).upload_bytes
                <= i64::MAX && contributions@[i].download_bytes <= i64::MAX,
    ensures
        statements_view(r@) == reconciled(
            flow_id@,
            mac_address@,
            attribution@,
            contributions_view(contributions@),
        ),
{
    let ghost cs = contributions_view(contributions@);
    let ghost mac = mac_address@;
    let ghost a = attribution@;
    let mut out: Vec<Statement> = Vec::new();
    let mut i: usize = 0;
    proof {
        assert(cs.take(0) =~= Seq::<ContributionView>::empty());
        assert(statements_view(out@) =~= Seq::<StatementView>::empty());
    }
    while i < contributions.len()
        invariant
            cs == contributions_view(contributions@),
            mac == mac_address@,
            a == attribution@,
            i <= contributions@.len(),
            forall|j: int|
                0 <= j < contributions@.len() ==> (#[trigger] contributions@[j]).upload_bytes
                    <= i64::MAX && contributions@[j].download_bytes <= i64::MAX,
            statements_view(out@) == all_moved(mac, a, cs.take(i as int)),
        decreases contributions@.len() - i,
    {
        let c = &contributions[i];
        let ghost start = out@;
        proof {
            assert(cs.take(i + 1).drop_last() =~= cs.take(i as int));
            assert(cs.take(i + 1).last() == c@);
        }
        let same = match &c.domain {
            Some(before) => str_eq(before.domain.as_str(), attribution.domain.as_str()),
            None => false,
        };
        if same {
            out.push(
                Statement::MarkDomainMinute {
                    mac_address: mac_address.to_owned(),
                    attribution: attribution.clone(),
                    minute_ms: c.minute_ms,
                },
            );
        } else {
            if let Some(before) = &c.domain {
                out.push(
                    Statement::SubtractDomainMinute {
                        mac_address: mac_address.to_owned(),
                        domain: before.domain.clone(),
                        minute_ms: c.minute_ms,
                        upload_bytes: c.upload_bytes as i64,
                        download_bytes: c.download_bytes as i64,
                    },
                );
            }
            out.push(
                Statement::AddDomainMinute {
                    mac_address: mac_address.to_owned(),
                    attribution: attribution.clone(),
                    minute_ms: c.minute_ms,
                    upload_bytes: c.upload_bytes as i64,
                    download_bytes: c.download_bytes as i64,
                },
            );
        }
        proof {
            assert(statements_view(out@) =~= statements_view(start) + moved(mac, a, c@));
        }
        i = i + 1;
    }
    let ghost moves = out@;
    out.push(
        Statement::MarkContributions {
            flow_id: flow_id.to_owned(),
            attribution: attribution.clone(),
        },
    );
    proof {
        assert(cs.take(i as int) =~= cs);
        assert(statements_view(out@) =~= reconciled(flow_id@, mac, a, cs));
    }
    out
}

/// The changes that give a stored flow a new attribution, apart from the flow itself.
pub open spec fn reattributed(
    flow_id: Seq<char>,
    mac: Seq<char>,
    stored: StoredView,
    a: crate::domain::AttributionView,
    ledger: Seq<Seq<crate::sql::SqlView>>,
) -> Result<Seq<StatementView>, crate::sql::ErrorView> {
    if needs_baseline(stored, ledger.len()) {
        Ok(
            seq![recorded(flow_id, mac, baseline(stored))] + reconciled(
                flow_id,
                mac,
                a,
                seq![baseline(stored)],
            ),
        )
    } else {
        match ledger_of(ledger) {
            Err(e) => Err(e),
            Ok(cs) => Ok(reconciled(flow_id, mac, a, cs)),
        }
    }
}

/// Counters in the ledger fit, as they were stored.
proof fn lemma_ledger_fits(rows: Seq<Seq<crate::sql::SqlView>>)
    ensures
        match ledger_of(rows) {
            Ok(cs) => forall|i: int|
                0 <= i < cs.len() ==> (#[trigger] cs[i]).upload_bytes <= i64::MAX
                    && cs[i].download_bytes <= i64::MAX,
            Err(_) => true,
        },
    decreases rows.len(),
{
    if rows.len() > 0 {
        lemma_ledger_fits(rows.drop_last());
    }
}

/// Moves what a stored flow has contributed to a new attribution. A flow that was counted before
/// contributions were kept gets one first, for all that was counted of it.
pub fn reattribute(
    flow_id: &str,
    mac_address: &str,
    stored: &StoredFlowState,
    attribution: &DomainAttribution,
    ledger: &Vec<Vec<SqlValue>>,
) -> (r: Result<Vec<Statement>, StorageError>)
    requires
        crate::domain::minute_of(stored.last_seen as int) >= i64::MIN,
        stored.counters.upload_bytes <= i64::MAX,
        stored.counters.download_bytes <= i64::MAX,
    ensures
        match (
            r,
            reattributed(
                flow_id@,
                mac_address@,
                stored@,
                attribution@,
                crate::sql::rows_view(ledger@),
            ),
        ) {
            (Ok(s), Ok(v)) => statements_view(s@) == v,
            (Err(e), Err(v)) => e@ == v,
            _ => false,
        },
{
    if stored.domain.is_none() && (stored.counters.upload_bytes > 0
        || stored.counters.download_bytes > 0) && ledger.len() == 0 {
        let minute_ms: i64 = floor_to_minute_ms(stored.last_seen);
        let mut out: Vec<Statement> = Vec::new();
        out.push(
            Statement::AddContribution {
                flow_id: flow_id.to_owned(),
                mac_address: mac_address.to_owned(),
                minute_ms,
                upload_bytes: stored.counters.upload_bytes as i64,
                download_bytes: stored.counters.download_bytes as i64,
                attribution: None,
            },
        );
        let mut entries: Vec<Contribution> = Vec::new();
        entries.push(
            Contribution {
                minute_ms,
                upload_bytes: stored.counters.upload_bytes,
                download_bytes: stored.counters.download_bytes,
                domain: None,
            },
        );
        proof {
            assert(contributions_view(entries@) =~= seq![baseline(stored@)]);
            assert(statements_view(out@) =~= seq![
                recorded(flow_id@, mac_address@, baseline(stored@)),
            ]);
        }
        let mut rest = reconcile_flow_contributions(flow_id, mac_address, attribution, &entries);
        proof {
            lemma_views_append(out@, rest@);
        }
        out.append(&mut rest);
        Ok(out)
    } else {
        match load_contributions(ledger) {
            Ok(entries) => {
                proof {
                    lemma_ledger_fits(crate::sql::rows_view(ledger@));
                    assert forall|i: int| 0 <= i < entries@.len() implies (
                    #[trigger] entries@[i]).upload_bytes <= i64::MAX && entries@[i].download_bytes
                        <= i64::MAX by {
                        assert(contributions_view(entries@)[i] == entries@[i]@);
                    }
                }
                Ok(reconcile_flow_contributions(flow_id, mac_address, attribution, &entries))
            },
            Err(e) => Err(e),
        }
    }
}

/// The increase of a flow's counters since it was stored; all of them where it was not.
pub open spec fn increase(
    f: crate::domain::FlowView,
    stored: Option<StoredView>,
) -> FlowCounters {
    match stored {
        Some(s) => FlowCounters {
            upload_bytes: (f.upload_bytes - s.counters.upload_bytes) as u64,
            download_bytes: (f.download_bytes - s.counters.download_bytes) as u64,
            packet_count: (f.packet_count - s.counters.packet_count) as u64,
        },
        None => counters_of(f),
    }
}

/// The counters that a flow carries.
pub open spec fn counters_of(f: crate::domain::FlowView) -> FlowCounters {
    FlowCounters {
        upload_bytes: f.upload_bytes,
        download_bytes: f.download_bytes,
        packet_count: f.packet_count,
    }
}

/// The changes that count an increase: in the device's minute, in the ledger, and in the domain's
/// minute where there is an attribution. Nothing where no bytes were added.
pub open spec fn counted(
    f: crate::domain::FlowView,
    d: FlowCounters,
    a: Option<crate::domain::AttributionView>,
) -> Seq<StatementView> {
    let minute_ms = crate::domain::minute_of(f.last_seen as int) as i64;
    if d.upload_bytes > 0 || d.download_bytes > 0 {
        let both = seq![
            StatementView::AddDeviceMinute {
                mac_address: f.client_mac,
                minute_ms,
                upload_bytes: d.upload_bytes as i64,
                download_bytes: d.download_bytes as i64,
            },
            StatementView::AddContribution {
                flow_id: f.flow_id,
                mac_address: f.client_mac,
                minute_ms,
                upload_bytes: d.upload_bytes as i64,
                download_bytes: d.download_bytes as i64,
                attribution: a,
            },
        ];
        match a {
            Some(attribution) => both.push(
                StatementView::AddDomainMinute {
                    mac_address: f.client_mac,
                    attribution,
                    minute_ms,
                    upload_bytes: d.upload_bytes as i64,
                    download_bytes: d.download_bytes as i64,
                },
            ),
            None => both,
        }
    } else {
        Seq::<StatementView>::empty()
    }
}

/// The change that notes where the flow's client is.
pub open spec fn seen_device(f: crate::domain::FlowView) -> StatementView {
    StatementView::UpsertDevice {
        mac_address: f.client_mac,
        display_name: None,
        current_ip: Some(f.client_ip),
    }
}

/// The change that stores the flow with the attribution that was decided on.
pub open spec fn stored_flow(
    f: crate::domain::FlowView,
    a: Option<crate::domain::AttributionView>,
) -> StatementView {
    StatementView::UpsertFlow { flow: crate::domain::FlowView { domain: a, ..f } }
}

/// The attribution that was decided on for a flow with a stored state.
pub open spec fn decided(
    f: crate::domain::FlowView,
    stored: Option<StoredView>,
) -> Option<crate::domain::AttributionView> {
    effective(
        match stored {
            Some(s) => s.domain,
            None => None,
        },
        f.domain,
    )
}

/// The stored flow changes its attribution.
pub open spec fn changes_attribution(
    f: crate::domain::FlowView,
    stored: Option<StoredView>,
) -> bool {
    stored is Some && decided(f, stored) is Some && stored->0.domain != decided(f, stored)
}

/// The error for counters that went back.
pub open spec fn reset_error(
    f: crate::domain::FlowView,
    stored: StoredView,
) -> crate::sql::ErrorView {
    crate::sql::ErrorView::InvalidCounter(
        "flow "@ + f.flow_id + ": "@ + (crate::domain::CounterReset {
            previous: stored.counters,
            current: counters_of(f),
        }).text(),
    )
}

/// The changes that store a snapshot of a flow over its stored state, or the error.
pub open spec fn snapshot_stored(
    f: crate::domain::FlowView,
    stored: Option<StoredView>,
    ledger: Seq<Seq<crate::sql::SqlView>>,
) -> Result<Seq<StatementView>, crate::sql::ErrorView> {
    let a = decided(f, stored);
    if stored is Some && !crate::domain::counters_advance(stored->0.counters, counters_of(f)) {
        Err(reset_error(f, stored->0))
    } else {
        let tail = seq![stored_flow(f, a)] + counted(f, increase(f, stored), a);
        if changes_attribution(f, stored) {
            match reattributed(f.flow_id, f.client_mac, stored->0, a->0, ledger) {
                Err(e) => Err(e),
                Ok(moves) => Ok(seq![seen_device(f)] + moves + tail),
            }
        } else {
            Ok(seq![seen_device(f)] + tail)
        }
    }
}

/// The changes that store a snapshot of a flow, given the row of its state and the rows of its
/// ledger, or the error.
pub open spec fn upserted(
    f: crate::domain::FlowView,
    state: Option<Seq<crate::sql::SqlView>>,
    ledger: Seq<Seq<crate::sql::SqlView>>,
) -> Result<Seq<StatementView>, crate::sql::ErrorView> {
    if f.upload_bytes > i64::MAX {
        Err(range_error("upload_bytes"@))
    } else if f.download_bytes > i64::MAX {
        Err(range_error("download_bytes"@))
    } else if f.packet_count > i64::MAX {
        Err(range_error("packet_count"@))
    } else {
        match state {
            Some(row) => match stored_state(row) {
                Err(e) => Err(e),
                Ok(s) => snapshot_stored(f, Some(s), ledger),
            },
            None => snapshot_stored(f, None, ledger),
        }
    }
}

/// The view of an optional row.
pub open spec fn opt_row_view(row: Option<Vec<SqlValue>>) -> Option<Seq<crate::sql::SqlView>> {
    match row {
        Some(r) => Some(crate::sql::row_view(r@)),
        None => None,
    }
}

/// The view of an optional stored state.
pub open spec fn opt_stored_view(s: Option<StoredFlowState>) -> Option<StoredView> {
    match s {
        Some(v) => Some(v@),
        None => None,
    }
}

/// The increase as changes.
fn count_increase(
    flow: &Flow,
    delta: FlowCounters,
    attribution: &Option<DomainAttribution>,
) -> (r: Vec<Statement>)
    requires
        crate::domain::minute_of(flow.last_seen as int) >= i64::MIN,
        delta.upload_bytes <= i64::MAX,
        delta.download_bytes <= i64::MAX,
    ensures
        statements_view(r@) == counted(
            flow@,
            delta,
            crate::domain::attribution_view(*attribution),
        ),
{
    let mut out: Vec<Statement> = Vec::new();
    if delta.upload_bytes > 0 || delta.download_bytes > 0 {
        let minute_ms: i64 = floor_to_minute_ms(flow.last_seen);
        let upload_bytes: i64 = delta.upload_bytes as i64;
        let download_bytes: i64 = delta.download_bytes as i64;
        out.push(
            Statement::AddDeviceMinute {
                mac_address: flow.client_mac.clone(),
                minute_ms,
                upload_bytes,
                download_bytes,
            },
        );
        out.push(
            Statement::AddContribution {
                flow_id: flow.flow_id.clone(),
                mac_address: flow.client_mac.clone(),
                minute_ms,
                upload_bytes,
                download_bytes,
                attribution: clone_attribution(attribution),
            },
        );
        if let Some(a) = attribution {
            out.push(
                Statement::AddDomainMinute {
                    mac_address: flow.client_mac.clone(),
                    attribution: a.clone(),
                    minute_ms,
                    upload_bytes,
                    download_bytes,
                },
            );
        }
    }
    proof {
        assert(statements_view(out@) =~= counted(
            flow@,
            delta,
            crate::domain::attribution_view(*attribution),
        ));
    }
    out
}

/// Stores a snapshot of a flow over its stored state. The counters may not go back; the attribution
/// is that which weighs more; the increase is counted in the minute in which the flow was last
/// seen.
pub fn store_snapshot(
    flow: &Flow,
    stored: &Option<StoredFlowState>,
    ledger: &Vec<Vec<SqlValue>>,
) -> (r: Result<Vec<Statement>, StorageError>)
    requires
        crate::domain::minute_of(flow.last_seen as int) >= i64::MIN,
        flow.upload_bytes <= i64::MAX,
        flow.download_bytes <= i64::MAX,
        stored is Some ==> crate::domain::minute_of(stored->0.last_seen as int) >= i64::MIN,
        stored is Some ==> stored->0.counters.upload_bytes <= i64::MAX
            && stored->0.counters.download_bytes <= i64::MAX,
    ensures
        match (
            r,
            snapshot_stored(flow@, opt_stored_view(*stored), crate::sql::rows_view(ledger@)),
        ) {
            (Ok(s), Ok(v)) => statements_view(s@) == v,
            (Err(e), Err(v)) => e@ == v,
            _ => false,
        },
{
    let current = FlowCounters::from_flow(flow);
    let attribution = match stored {
        Some(previous) => effective_attribution(&previous.domain, &flow.domain),
        None => effective_attribution(&None, &flow.domain),
    };
    let ghost f = flow@;
    let ghost a = decided(f, opt_stored_view(*stored));
    let delta = match stored {
        Some(previous) => match current.delta_from(previous.counters) {
            Ok(delta) => delta,
            Err(reset) => {
                let mut message = "flow ".to_owned();
                message.append(flow.flow_id.as_str());
                message.append(": ");
                message.append(reset.message().as_str());
                return Err(StorageError::InvalidCounter(message));
            },
        },
        None => current,
    };
    let mut out: Vec<Statement> = Vec::new();
    out.push(
        Statement::UpsertDevice {
            mac_address: flow.client_mac.clone(),
            display_name: None,
            current_ip: Some(flow.client_ip.clone()),
        },
    );
    proof {
        assert(statements_view(out@) =~= seq![seen_device(f)]);
    }
    if let (Some(previous), Some(decision)) = (stored, &attribution) {
        let unchanged = match &previous.domain {
            Some(before) => same_attribution(before, decision),
            None => false,
        };
        if !unchanged {
            match reattribute(
                flow.flow_id.as_str(),
                flow.client_mac.as_str(),
                previous,
                decision,
                ledger,
            ) {
                Ok(moves) => {
                    let mut moves = moves;
                    proof {
                        lemma_views_append(out@, moves@);
                    }
                    out.append(&mut moves);
                },
                Err(e) => {
                    return Err(e);
                },
            }
        }
    }
    let ghost head = out@;
    let mut snapshot = flow.clone();
    snapshot.domain = clone_attribution(&attribution);
    proof {
        assert(snapshot@ =~= crate::domain::FlowView { domain: a, ..f });
    }
    let mut tail: Vec<Statement> = Vec::new();
    tail.push(Statement::UpsertFlow { flow: snapshot });
    let mut counts = count_increase(flow, delta, &attribution);
    proof {
        assert(statements_view(tail@) =~= seq![stored_flow(f, a)]);
        lemma_views_append(tail@, counts@);
    }
    tail.append(&mut counts);
    proof {
        lemma_views_append(out@, tail@);
        assert(delta == increase(f, opt_stored_view(*stored)));
    }
    out.append(&mut tail);
    Ok(out)
}

/// Decides what changes when a snapshot of a flow is stored, given the row of its stored state, if
/// there is one, and the rows of its ledger.
pub fn upsert_flow_tx(
    flow: &Flow,
    state: &Option<Vec<SqlValue>>,
    ledger: &Vec<Vec<SqlValue>>,
) -> (r: Result<Vec<Statement>, StorageError>)
    requires
        crate::domain::minute_of(flow.last_seen as int) >= i64::MIN,
        state_minute_fits(opt_row_view(*state)),
    ensures
        match (r, upserted(flow@, opt_row_view(*state), crate::sql::rows_view(ledger@))) {
            (Ok(s), Ok(v)) => statements_view(s@) == v,
            (Err(e), Err(v)) => e@ == v,
            _ => false,
        },
{
    if let Err(e) = counter_to_sqlite_integer(flow.upload_bytes, "upload_bytes") {
        return Err(e);
    }
    if let Err(e) = counter_to_sqlite_integer(flow.download_bytes, "download_bytes") {
        return Err(e);
    }
    if let Err(e) = counter_to_sqlite_integer(flow.packet_count, "packet_count") {
        return Err(e);
    }
    match state {
        Some(row) => match load_stored_flow_state(row) {
            Ok(stored) => store_snapshot(flow, &Some(stored), ledger),
            Err(e) => Err(e),
        },
        None => store_snapshot(flow, &None, ledger),
    }
}

/// The first flow of a list that breaks a rule decides the error.
pub open spec fn batch_fault(flows: Seq<crate::domain::FlowView>) -> Option<Seq<char>>
    decreases flows.len(),
{
    if flows.len() == 0 {
        None
    } else {
        match batch_fault(flows.drop_last()) {
            Some(fault) => Some(fault),
            None => crate::domain::flow_fault(flows.last()),
        }
    }
}

proof fn lemma_batch_fault(flows: Seq<crate::domain::FlowView>, i: int)
    requires
        0 <= i <= flows.len(),
        batch_fault(flows.take(i)) is Some,
    ensures
        batch_fault(flows) == batch_fault(flows.take(i)),
    decreases flows.len() - i,
{
    if i < flows.len() {
        assert(flows.take(i + 1).drop_last() =~= flows.take(i));
        lemma_batch_fault(flows, i + 1);
    } else {
        assert(flows.take(i) =~= flows);
    }
}

/// A batch without a fault holds valid flows only.
pub proof fn faultless_batch_is_valid(flows: Seq<crate::domain::FlowView>)
    ensures
        batch_fault(flows) is None <==> forall|i: int|
            0 <= i < flows.len() ==> crate::domain::flow_valid(#[trigger] flows[i]),
    decreases flows.len(),
{
    if flows.len() > 0 {
        let t = flows.drop_last();
        faultless_batch_is_valid(t);
        if batch_fault(flows) is None {
            assert forall|i: int| 0 <= i < flows.len() implies crate::domain::flow_valid(
                #[trigger] flows[i],
            ) by {
                if i < t.len() {
                    assert(t[i] == flows[i]);
                }
            }
        }
        if forall|i: int| 0 <= i < flows.len() ==> crate::domain::flow_valid(#[trigger] flows[i]) {
            assert forall|i: int| 0 <= i < t.len() implies crate::domain::flow_valid(
                #[trigger] t[i],
            ) by {
                assert(t[i] == flows[i]);
            }
            assert(crate::domain::flow_valid(flows[flows.len() - 1]));
        }
    }
}

/// Checks every flow of a batch before any of it is stored.
pub fn validate_flows(flows: &[Flow]) -> (r: Result<(), StorageError>)
    ensures
        match r {
            Ok(_) => batch_fault(crate::dns::flow_views(flows@)) is None,
            Err(e) => match batch_fault(crate::dns::flow_views(flows@)) {
                Some(fault) => e@ == crate::sql::ErrorView::InvalidFlow(fault),
                None => false,
            },
        },
{
    let ghost views = crate::dns::flow_views(flows@);
    let mut i: usize = 0;
    while i < flows.len()
        invariant
            views == crate::dns::flow_views(flows@),
            i <= flows@.len(),
            batch_fault(views.take(i as int)) is None,
        decreases flows@.len() - i,
    {
        proof {
            assert(views.take(i + 1).drop_last() =~= views.take(i as int));
            assert(views.take(i + 1).last() == flows@[i as int]@);
        }
        if let Err(message) = flows[i].validate() {
            proof {
                lemma_batch_fault(views, i + 1);
            }
            return Err(StorageError::InvalidFlow(message.to_owned()));
        }
        i = i + 1;
    }
    proof {
        assert(views.take(i as int) =~= views);
    }
    Ok(())
}

/// A stored flow that a binding may apply to, as it was read.
#[derive(Debug)]
pub struct LoadedFlow {
    pub flow_id: String,
    pub state: Option<Vec<SqlValue>>,
    pub ledger: Vec<Vec<SqlValue>>,
}

/// What a loaded flow is, as a mathematical value.
#[verifier::ext_equal]
pub struct LoadedView {
    pub flow_id: Seq<char>,
    pub state: Option<Seq<crate::sql::SqlView>>,
    pub ledger: Seq<Seq<crate::sql::SqlView>>,
}

impl View for LoadedFlow {
    type V = LoadedView;

    open spec fn view(&self) -> LoadedView {
        LoadedView {
            flow_id: self.flow_id@,
            state: opt_row_view(self.state),
            ledger: crate::sql::rows_view(self.ledger@),
        }
    }
}

/// The views of a list of loaded flows.
pub open spec fn loaded_views(s: Seq<LoadedFlow>) -> Seq<LoadedView> {
    s.map_values(|f: LoadedFlow| f@)
}

/// The changes that apply an attribution to one loaded flow; `None` where it stays as it is.
pub open spec fn backfilled(
    mac: Seq<char>,
    a: crate::domain::AttributionView,
    flow: LoadedView,
) -> Result<Option<Seq<StatementView>>, crate::sql::ErrorView> {
    match flow.state {
        None => Ok(None),
        Some(row) => match stored_state(row) {
            Err(e) => Err(e),
            Ok(stored) => {
                let decision = effective(stored.domain, Some(a));
                if decision == stored.domain || decision is None {
                    Ok(None)
                } else {
                    match reattributed(flow.flow_id, mac, stored, decision->0, flow.ledger) {
                        Err(e) => Err(e),
                        Ok(moves) => Ok(
                            Some(
                                moves.push(
                                    StatementView::SetFlowDomain {
                                        flow_id: flow.flow_id,
                                        attribution: decision->0,
                                    },
                                ),
                            ),
                        ),
                    }
                }
            },
        },
    }
}

/// The changes that apply an attribution to loaded flows, in order, with how many flows change.
pub open spec fn all_backfilled(
    mac: Seq<char>,
    a: crate::domain::AttributionView,
    flows: Seq<LoadedView>,
) -> Result<(Seq<StatementView>, nat), crate::sql::ErrorView>
    decreases flows.len(),
{
    if flows.len() == 0 {
        Ok((Seq::<StatementView>::empty(), 0))
    } else {
        match all_backfilled(mac, a, flows.drop_last()) {
            Err(e) => Err(e),
            Ok(before) => match backfilled(mac, a, flows.last()) {
                Err(e) => Err(e),
                Ok(None) => Ok(before),
                Ok(Some(changes)) => Ok((before.0 + changes, before.1 + 1)),
            },
        }
    }
}

proof fn lemma_backfill_error(
    mac: Seq<char>,
    a: crate::domain::AttributionView,
    flows: Seq<LoadedView>,
    i: int,
)
    requires
        0 <= i <= flows.len(),
        all_backfilled(mac, a, flows.take(i)) is Err,
    ensures
        all_backfilled(mac, a, flows) == all_backfilled(mac, a, flows.take(i)),
    decreases flows.len() - i,
{
    if i < flows.len() {
        assert(flows.take(i + 1).drop_last() =~= flows.take(i));
        lemma_backfill_error(mac, a, flows, i + 1);
    } else {
        assert(flows.take(i) =~= flows);
    }
}

/// The time in a loaded flow's state, if it has one, is not too close to the limit.
pub open spec fn loaded_minute_fits(flow: LoadedView) -> bool {
    state_minute_fits(flow.state)
}

/// The time in a row of a flow's state, if there is one, is not too close to the limit.
pub open spec fn state_minute_fits(state: Option<Seq<crate::sql::SqlView>>) -> bool {
    match state {
        Some(row) => match crate::sql::int_column(row, 3) {
            Some(last_seen) => crate::domain::minute_of(last_seen as int) >= i64::MIN,
            None => true,
        },
        None => true,
    }
}

/// Applies an attribution to one loaded flow.
pub fn backfill_flow(
    mac_address: &str,
    attribution: &DomainAttribution,
    flow: &LoadedFlow,
) -> (r: Result<Option<Vec<Statement>>, StorageError>)
    requires
        loaded_minute_fits(flow@),
    ensures
        match (r, backfilled(mac_address@, attribution@, flow@)) {
            (Ok(Some(s)), Ok(Some(v))) => statements_view(s@) == v,
            (Ok(None), Ok(None)) => true,
            (Err(e), Err(v)) => e@ == v,
            _ => false,
        },
{
    let row = match &flow.state {
        Some(row) => row,
        None => {
            return Ok(None);
        },
    };
    let stored = match load_stored_flow_state(row) {
        Ok(stored) => stored,
        Err(e) => {
            return Err(e);
        },
    };
    let incoming = Some(attribution.clone());
    let decision = match effective_attribution(&stored.domain, &incoming) {
        Some(decision) => decision,
        None => {
            return Ok(None);
        },
    };
    let unchanged = match &stored.domain {
        Some(before) => same_attribution(before, &decision),
        None => false,
    };
    if unchanged {
        return Ok(None);
    }
    match reattribute(flow.flow_id.as_str(), mac_address, &stored, &decision, &flow.ledger) {
        Ok(moves) => {
            let mut out = moves;
            proof {
                lemma_views_push(
                    out@,
                    Statement::SetFlowDomain { flow_id: flow.flow_id, attribution: decision },
                );
            }
            out.push(
                Statement::SetFlowDomain { flow_id: flow.flow_id.clone(), attribution: decision },
            );
            Ok(Some(out))
        },
        Err(e) => Err(e),
    }
}

/// Applies a resolved binding to the stored flows that it covers. Returns the changes and the
/// number of flows that change.
pub fn backfill_domain_binding_tx(
    binding: &ResolvedDomainBinding,
    flows: &Vec<LoadedFlow>,
) -> (r: Result<(Vec<Statement>, usize), StorageError>)
    requires
        forall|i: int| 0 <= i < flows@.len() ==> loaded_minute_fits((#[trigger] flows@[i])@),
    ensures
        match (
            r,
            all_backfilled(binding.client_mac@, binding.attribution@, loaded_views(flows@)),
        ) {
            (Ok(s), Ok(v)) => statements_view(s.0@) == v.0 && s.1 == v.1,
            (Err(e), Err(v)) => e@ == v,
            _ => false,
        },
{
    let ghost mac = binding.client_mac@;
    let ghost a = binding.attribution@;
    let ghost views = loaded_views(flows@);
    let mut out: Vec<Statement> = Vec::new();
    let mut updated: usize = 0;
    let mut i: usize = 0;
    proof {
        assert(views.take(0) =~= Seq::<LoadedView>::empty());
        assert(statements_view(out@) =~= Seq::<StatementView>::empty());
    }
    while i < flows.len()
        invariant
            mac == binding.client_mac@,
            a == binding.attribution@,
            views == loaded_views(flows@),
            i <= flows@.len(),
            updated <= i,
            forall|j: int| 0 <= j < flows@.len() ==> loaded_minute_fits((#[trigger] flows@[j])@),
            all_backfilled(mac, a, views.take(i as int)) == Ok::<
                (Seq<StatementView>, nat),
                crate::sql::ErrorView,
            >((statements_view(out@), updated as nat)),
        decreases flows@.len() - i,
    {
        proof {
            assert(views.take(i + 1).drop_last() =~= views.take(i as int));
            assert(views.take(i + 1).last() == flows@[i as int]@);
        }
        match backfill_flow(binding.client_mac.as_str(), &binding.attribution, &flows[i]) {
            Ok(Some(changes)) => {
                let mut changes = changes;
                proof {
                    lemma_views_append(out@, changes@);
                }
                out.append(&mut changes);
                updated = updated + 1;
            },
            Ok(None) => {},
            Err(e) => {
                proof {
                    lemma_backfill_error(mac, a, views, i + 1);
                }
                return Err(e);
            },
        }
        i = i + 1;
    }
    proof {
        assert(views.take(i as int) =~= views);
    }
    Ok((out, updated))
}

/// Turns a number of rows, as the database reports it, into a count.
pub fn count_rows(count: i64) -> (r: Result<usize, StorageError>)
    ensures
        match r {
            Ok(n) => n == count,
            Err(e) => (count < 0 || count > usize::MAX) && e@
                == crate::sql::ErrorView::InvalidCounter("row count must be non-negative"@),
        },
{
    if count >= 0 && count as u64 <= usize::MAX as u64 {
        Ok(count as usize)
    } else {
        Err(StorageError::InvalidCounter("row count must be non-negative".to_owned()))
    }
}

/// The changes that remove everything of a device.
pub open spec fn device_deleted(mac: Seq<char>) -> Seq<StatementView> {
    seq![
        StatementView::DeleteDeviceMinutesOf { mac_address: mac },
        StatementView::DeleteDomainMinutesOf { mac_address: mac },
        StatementView::DeleteFlowsOf { mac_address: mac },
        StatementView::DeleteDevice { mac_address: mac },
    ]
}

/// Removes a device with everything that was observed of it; nothing where it is not known.
pub fn delete_device_data_tx(mac_address: &str, exists: bool) -> (r: Option<Vec<Statement>>)
    ensures
        match r {
            Some(s) => exists && statements_view(s@) == device_deleted(mac_address@),
            None => !exists,
        },
{
    if !exists {
        return None;
    }
    let mut out: Vec<Statement> = Vec::new();
    out.push(Statement::DeleteDeviceMinutesOf { mac_address: mac_address.to_owned() });
    out.push(Statement::DeleteDomainMinutesOf { mac_address: mac_address.to_owned() });
    out.push(Statement::DeleteFlowsOf { mac_address: mac_address.to_owned() });
    out.push(Statement::DeleteDevice { mac_address: mac_address.to_owned() });
    proof {
        assert(statements_view(out@) =~= device_deleted(mac_address@));
    }
    Some(out)
}

/// What a device deletion removed, by the rows counted before it and the rows that each of its
/// changes touched.
pub fn device_deletion_result(
    flows: usize,
    contributions: usize,
    changed: &Vec<usize>,
) -> (r: DataDeletionResult)
    requires
        changed@.len() == 4,
    ensures
        r == (DataDeletionResult {
            devices_deleted: 1,
            flows_deleted: flows,
            flows_redacted: 0,
            device_minutes_deleted: changed@[0],
            domain_minutes_deleted: changed@[1],
            contributions_deleted: contributions,
        }),
{
    DataDeletionResult {
        devices_deleted: 1,
        flows_deleted: flows,
        flows_redacted: 0,
        device_minutes_deleted: changed[0],
        domain_minutes_deleted: changed[1],
        contributions_deleted: contributions,
    }
}

/// The changes that remove a domain from the observations of one device or of all.
pub open spec fn domain_deleted(mac: Option<Seq<char>>, domain: Seq<char>) -> Seq<StatementView> {
    seq![
        StatementView::DeleteContributionsTo { mac_address: mac, domain },
        StatementView::DeleteDomainMinutesFor { mac_address: mac, domain },
        StatementView::RedactFlows { mac_address: mac, domain },
    ]
}

/// The view of an optional string slice.
pub open spec fn opt_str_view(s: Option<&str>) -> Option<Seq<char>> {
    match s {
        Some(v) => Some(v@),
        None => None,
    }
}

/// An owned copy of an optional string slice.
pub fn own_opt(s: Option<&str>) -> (r: Option<String>)
    ensures
        crate::text::opt_view(r) == opt_str_view(s),
{
    match s {
        Some(v) => Some(v.to_owned()),
        None => None,
    }
}

/// Removes a domain from the observations of one device or of all. Device traffic stays.
pub fn delete_domain_data_tx(mac_address: Option<&str>, domain: &str) -> (r: Vec<Statement>)
    ensures
        statements_view(r@) == domain_deleted(opt_str_view(mac_address), domain@),
{
    let mut out: Vec<Statement> = Vec::new();
    out.push(
        Statement::DeleteContributionsTo {
            mac_address: own_opt(mac_address),
            domain: domain.to_owned(),
        },
    );
    out.push(
        Statement::DeleteDomainMinutesFor {
            mac_address: own_opt(mac_address),
            domain: domain.to_owned(),
        },
    );
    out.push(
        Statement::RedactFlows { mac_address: own_opt(mac_address), domain: domain.to_owned() },
    );
    proof {
        assert(statements_view(out@) =~= domain_deleted(opt_str_view(mac_address), domain@));
    }
    out
}

/// What a domain deletion removed, by the rows that each of its changes touched.
pub fn domain_deletion_result(changed: &Vec<usize>) -> (r: DataDeletionResult)
    requires
        changed@.len() == 3,
    ensures
        r == (DataDeletionResult {
            devices_deleted: 0,
            flows_deleted: 0,
            flows_redacted: changed@[2],
            device_minutes_deleted: 0,
            domain_minutes_deleted: changed@[1],
            contributions_deleted: changed@[0],
        }),
{
    DataDeletionResult {
        devices_deleted: 0,
        flows_deleted: 0,
        flows_redacted: changed[2],
        device_minutes_deleted: 0,
        domain_minutes_deleted: changed[1],
        contributions_deleted: changed[0],
    }
}

/// The changes that remove what was observed in a range of time.
pub open spec fn range_deleted(from_ms: i64, to_ms: i64) -> Seq<StatementView> {
    seq![
        StatementView::DeleteDeviceMinutesIn { from_ms, to_ms },
        StatementView::DeleteDomainMinutesIn { from_ms, to_ms },
        StatementView::DeleteContributionsIn { from_ms, to_ms },
        StatementView::DeleteFlowsIn { from_ms, to_ms },
    ]
}

/// Removes what was observed from `from_ms` up to, not including, `to_ms`. Devices stay.
pub fn delete_data_range_tx(from_ms: i64, to_ms: i64) -> (r: Vec<Statement>)
    ensures
        statements_view(r@) == range_deleted(from_ms, to_ms),
{
    let mut out: Vec<Statement> = Vec::new();
    out.push(Statement::DeleteDeviceMinutesIn { from_ms, to_ms });
    out.push(Statement::DeleteDomainMinutesIn { from_ms, to_ms });
    out.push(Statement::DeleteContributionsIn { from_ms, to_ms });
    out.push(Statement::DeleteFlowsIn { from_ms, to_ms });
    proof {
        assert(statements_view(out@) =~= range_deleted(from_ms, to_ms));
    }
    out
}

/// What a range deletion removed, by the rows counted before it and the rows that each of its
/// changes touched.
pub fn range_deletion_result(
    flows: usize,
    contributions: usize,
    changed: &Vec<usize>,
) -> (r: DataDeletionResult)
    requires
        changed@.len() == 4,
    ensures
        r == (DataDeletionResult {
            devices_deleted: 0,
            flows_deleted: flows,
            flows_redacted: 0,
            device_minutes_deleted: changed@[0],
            domain_minutes_deleted: changed@[1],
            contributions_deleted: contributions,
        }),
{
    DataDeletionResult {
        devices_deleted: 0,
        flows_deleted: flows,
        flows_redacted: 0,
        device_minutes_deleted: changed[0],
        domain_minutes_deleted: changed[1],
        contributions_deleted: contributions,
    }
}

/// The time before which flows are no longer kept.
pub open spec fn flow_cutoff(now_ms: i64, hours: u32) -> int {
    now_ms - hours * 3_600_000
}

/// The time before which minute traffic is no longer kept.
pub open spec fn aggregate_cutoff(now_ms: i64, days: u32) -> int {
    now_ms - days * 86_400_000
}

/// The changes that remove what is no longer kept.
pub open spec fn expired_deleted(flow_cutoff: i64, aggregate_cutoff: i64) -> Seq<StatementView> {
    seq![
        StatementView::DeleteFlowsBefore { cutoff_ms: flow_cutoff },
        StatementView::DeleteDeviceMinutesBefore { cutoff_ms: aggregate_cutoff },
        StatementView::DeleteContributionsBefore { cutoff_ms: aggregate_cutoff },
        StatementView::DeleteDomainMinutesBefore { cutoff_ms: aggregate_cutoff },
    ]
}

/// Removes flows and minute traffic that are older than they are kept.
pub fn delete_expired_data(
    now_ms: i64,
    flow_retention_hours: u32,
    aggregate_retention_days: u32,
) -> (r: Vec<Statement>)
    requires
        flow_cutoff(now_ms, flow_retention_hours) >= i64::MIN,
        aggregate_cutoff(now_ms, aggregate_retention_days) >= i64::MIN,
    ensures
        statements_view(r@) == expired_deleted(
            flow_cutoff(now_ms, flow_retention_hours) as i64,
            aggregate_cutoff(now_ms, aggregate_retention_days) as i64,
        ),
{
    let flows: i64 = now_ms - flow_retention_hours as i64 * 3_600_000;
    let aggregates: i64 = now_ms - aggregate_retention_days as i64 * 86_400_000;
    let mut out: Vec<Statement> = Vec::new();
    out.push(Statement::DeleteFlowsBefore { cutoff_ms: flows });
    out.push(Statement::DeleteDeviceMinutesBefore { cutoff_ms: aggregates });
    out.push(Statement::DeleteContributionsBefore { cutoff_ms: aggregates });
    out.push(Statement::DeleteDomainMinutesBefore { cutoff_ms: aggregates });
    proof {
        assert(statements_view(out@) =~= expired_deleted(flows, aggregates));
    }
    out
}

/// How many flows and how many minutes were removed, by the rows that each change touched.
pub fn expired_deletion_result(changed: &Vec<usize>) -> (r: (usize, usize))
    requires
        changed@.len() == 4,
        changed@[1] + changed@[3] <= usize::MAX,
    ensures
        r.0 == changed@[0],
        r.1 == changed@[1] + changed@[3],
{
    (changed[0], changed[1] + changed[3])
}

/// The change that notes a device.
pub fn upsert_device_tx(device: &Device) -> (r: Statement)
    ensures
        r@ == (StatementView::UpsertDevice {
            mac_address: device@.mac_address,
            display_name: device@.display_name,
            current_ip: device@.current_ip,
        }),
{
    Statement::UpsertDevice {
        mac_address: device.mac_address.clone(),
        display_name: clone_opt(&device.display_name),
        current_ip: clone_opt(&device.current_ip),
    }
}

/// The change that names a device.
pub fn update_device_display_name(mac_address: &str, display_name: Option<&str>) -> (r: Statement)
    ensures
        r@ == (StatementView::RenameDevice {
            mac_address: mac_address@,
            display_name: opt_str_view(display_name),
        }),
{
    Statement::RenameDevice {
        mac_address: mac_address.to_owned(),
        display_name: own_opt(display_name),
    }
}

/// Where observations are kept.
pub trait RouteScopeRepository {
    /// Notes a device; a name that it has already stays where none is given.
    fn upsert_device(&mut self, device: &Device) -> Result<(), StorageError>;

    /// Stores a snapshot of a flow and counts its increase.
    fn upsert_flow(&mut self, flow: &Flow) -> Result<(), StorageError>;

    /// Stores snapshots of flows, all or none, and tells how many.
    fn upsert_flows(&mut self, flows: &Vec<Flow>) -> Result<usize, StorageError>;

    /// Applies resolved bindings to flows that are stored already, and tells how many changed.
    fn backfill_domain_bindings(&mut self, bindings: &Vec<ResolvedDomainBinding>) -> Result<
        usize,
        StorageError,
    >;

    /// Removes a device with everything that was observed of it.
    fn delete_device_data(&mut self, mac_address: &str) -> Result<
        Option<DataDeletionResult>,
        StorageError,
    >;

    /// Removes a domain from the observations of one device or of all.
    fn delete_domain_data(&mut self, mac_address: Option<&str>, domain: &str) -> Result<
        DataDeletionResult,
        StorageError,
    >;

    /// Removes what was observed from `from_ms` up to, not including, `to_ms`.
    fn delete_data_range(&mut self, from_ms: i64, to_ms: i64) -> Result<
        DataDeletionResult,
        StorageError,
    >;

    /// Lists the devices.
    fn list_devices(&self) -> Result<Vec<Device>, StorageError>;

    /// Finds a device.
    fn find_device(&self, mac_address: &str) -> Result<Option<Device>, StorageError>;

    /// Names a device and tells whether it is known.
    fn update_device_display_name(
        &mut self,
        mac_address: &str,
        display_name: Option<&str>,
    ) -> Result<bool, StorageError>;

    /// Lists a page of the flows of a device.
    fn list_flow_page(
        &self,
        mac_address: &str,
        since_ms: i64,
        anchor: Option<&FlowPageAnchor>,
        direction: FlowPageDirection,
        limit: usize,
    ) -> Result<Vec<Flow>, StorageError>;

    /// Sums up the flows of a device from a time on.
    fn summarize_recent_flows(&self, mac_address: &str, since_ms: i64) -> Result<
        DeviceFlowSummary,
        StorageError,
    >;

    /// Lists the traffic of a device by the minute, from a time on.
    fn list_device_minute_stats(&self, mac_address: &str, since_ms: i64) -> Result<
        Vec<DeviceMinuteStat>,
        StorageError,
    >;

    /// Lists the traffic of a device with a domain by the minute, from a time on.
    fn list_domain_minute_stats(&self, mac_address: &str, domain: &str, since_ms: i64) -> Result<
        Vec<DomainMinuteStat>,
        StorageError,
    >;

    /// Lists the domains with the most traffic of a device, from a time on.
    fn list_domain_traffic_top(&self, mac_address: &str, since_ms: i64, limit: usize) -> Result<
        Vec<DomainTrafficSummary>,
        StorageError,
    >;

    /// Removes what is no longer kept, and tells how many flows and minutes that were.
    fn delete_expired_data(
        &mut self,
        now_ms: i64,
        flow_retention_hours: u32,
        aggregate_retention_days: u32,
    ) -> Result<(usize, usize), StorageError>
        requires
            flow_cutoff(now_ms, flow_retention_hours) >= i64::MIN,
            aggregate_cutoff(now_ms, aggregate_retention_days) >= i64::MIN,
    ;
}

/// The changes that give a stored flow with known contributions a new attribution.
pub open spec fn reattribution(
    flow_id: Seq<char>,
    mac: Seq<char>,
    stored: StoredView,
    a: crate::domain::AttributionView,
    cs: Seq<ContributionView>,
) -> Seq<StatementView> {
    if needs_baseline(stored, cs.len()) {
        seq![recorded(flow_id, mac, baseline(stored))] + reconciled(
            flow_id,
            mac,
            a,
            seq![baseline(stored)],
        )
    } else {
        reconciled(flow_id, mac, a, cs)
    }
}

/// The changes that store a snapshot of a flow with a known state and known contributions.
pub open spec fn snapshot_changes(
    f: crate::domain::FlowView,
    stored: Option<StoredView>,
    cs: Seq<ContributionView>,
) -> Seq<StatementView> {
    let a = decided(f, stored);
    let tail = seq![stored_flow(f, a)] + counted(f, increase(f, stored), a);
    if changes_attribution(f, stored) {
        seq![seen_device(f)] + reattribution(f.flow_id, f.client_mac, stored->0, a->0, cs) + tail
    } else {
        seq![seen_device(f)] + tail
    }
}

/// Each row of a ledger that can be read is one contribution.
pub proof fn lemma_ledger_len(rows: Seq<Seq<crate::sql::SqlView>>)
    ensures
        match ledger_of(rows) {
            Ok(cs) => cs.len() == rows.len(),
            Err(_) => true,
        },
    decreases rows.len(),
{
    if rows.len() > 0 {
        lemma_ledger_len(rows.drop_last());
    }
}

/// A snapshot whose counters do not go back, of a flow whose ledger can be read, is stored by the
/// changes that its state and contributions call for.
pub proof fn readable_snapshot_is_stored(
    f: crate::domain::FlowView,
    stored: Option<StoredView>,
    rows: Seq<Seq<crate::sql::SqlView>>,
    cs: Seq<ContributionView>,
)
    requires
        ledger_of(rows) == Ok::<Seq<ContributionView>, crate::sql::ErrorView>(cs),
        stored is Some ==> crate::domain::counters_advance(stored->0.counters, counters_of(f)),
    ensures
        snapshot_stored(f, stored, rows) == Ok::<Seq<StatementView>, crate::sql::ErrorView>(
            snapshot_changes(f, stored, cs),
        ),
{
    lemma_ledger_len(rows);
}

/// What is stored of a flow after a snapshot was stored over an earlier state.
pub open spec fn state_after(
    f: crate::domain::FlowView,
    stored: Option<StoredView>,
) -> StoredView {
    StoredView {
        counters: counters_of(f),
        last_seen: f.last_seen,
        domain: decided(f, stored),
    }
}

/// Storing a snapshot again counts nothing and moves nothing: only the device and the flow are
/// written once more, as they were.
pub proof fn duplicate_snapshot_counts_nothing(
    f: crate::domain::FlowView,
    stored: Option<StoredView>,
    rows: Seq<Seq<crate::sql::SqlView>>,
)
    ensures
        snapshot_stored(f, Some(state_after(f, stored)), rows) == Ok::<
            Seq<StatementView>,
            crate::sql::ErrorView,
        >(seq![seen_device(f), stored_flow(f, decided(f, stored))]),
{
    let again = state_after(f, stored);
    let before = match stored {
        Some(s) => s.domain,
        None => None,
    };
    effective_attribution_is_stable(before, f.domain);
    assert(decided(f, Some(again)) == decided(f, stored));
    assert(seq![seen_device(f)] + (seq![stored_flow(f, decided(f, stored))] + Seq::<
        StatementView,
    >::empty()) =~= seq![seen_device(f), stored_flow(f, decided(f, stored))]);
}

/// A binding that was applied to a flow changes it no more.
pub proof fn backfill_is_idempotent(
    mac: Seq<char>,
    a: crate::domain::AttributionView,
    flow: LoadedView,
    row: Seq<crate::sql::SqlView>,
    stored: StoredView,
)
    requires
        stored_state(row) == Ok::<StoredView, crate::sql::ErrorView>(
            StoredView { domain: effective(stored.domain, Some(a)), ..stored },
        ),
        flow.state == Some(row),
    ensures
        backfilled(mac, a, flow) == Ok::<Option<Seq<StatementView>>, crate::sql::ErrorView>(None),
{
    effective_attribution_is_stable(stored.domain, Some(a));
}

} // verus!
