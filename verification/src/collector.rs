//! Where flows come from, and what is made of them before they are stored.
use vstd::prelude::*;
use vstd::string::*;

use crate::conntrack::{Association, ConntrackReader, ConntrackSnapshot};
use crate::domain::{CounterReset, Flow};
use crate::text::{clone_opt, str_eq};

verus! {

/// How well a collector is doing.
#[derive(Debug, Clone, Copy, PartialEq, Eq, Structural)]
pub enum CollectorHealthState {
    Healthy,
    Degraded,
    Unhealthy,
}

impl CollectorHealthState {
    /// The reported form.
    pub open spec fn text(self) -> Seq<char> {
        match self {
            CollectorHealthState::Healthy => "healthy"@,
            CollectorHealthState::Degraded => "degraded"@,
            CollectorHealthState::Unhealthy => "unhealthy"@,
        }
    }

    /// The form under which the state is reported.
    pub fn as_str(&self) -> (r: &'static str)
        ensures
            r@ == self.text(),
    {
        match self {
            CollectorHealthState::Healthy => "healthy",
            CollectorHealthState::Degraded => "degraded",
            CollectorHealthState::Unhealthy => "unhealthy",
        }
    }
}

/// What a collector reports of itself.
#[derive(Debug, PartialEq, Eq)]
pub struct CollectorHealth {
    pub state: CollectorHealthState,
    pub observed_at_ms: i64,
    pub flows_seen: usize,
    pub flows_emitted: usize,
    pub last_error: Option<String>,
}

/// What a report is, as a mathematical value.
#[verifier::ext_equal]
pub struct HealthView {
    pub state: CollectorHealthState,
    pub observed_at_ms: i64,
    pub flows_seen: usize,
    pub flows_emitted: usize,
    pub last_error: Option<Seq<char>>,
}

impl View for CollectorHealth {
    type V = HealthView;

    open spec fn view(&self) -> HealthView {
        HealthView {
            state: self.state,
            observed_at_ms: self.observed_at_ms,
            flows_seen: self.flows_seen,
            flows_emitted: self.flows_emitted,
            last_error: crate::text::opt_view(self.last_error),
        }
    }
}

impl Clone for CollectorHealth {
    fn clone(&self) -> (r: Self)
        ensures
            r == *self,
    {
        CollectorHealth {
            state: self.state,
            observed_at_ms: self.observed_at_ms,
            flows_seen: self.flows_seen,
            flows_emitted: self.flows_emitted,
            last_error: clone_opt(&self.last_error),
        }
    }
}

/// All flows that were seen were handed on.
pub open spec fn healthy(observed_at_ms: i64, flow_count: usize) -> HealthView {
    HealthView {
        state: CollectorHealthState::Healthy,
        observed_at_ms,
        flows_seen: flow_count,
        flows_emitted: flow_count,
        last_error: None,
    }
}

/// Flows were seen but not handed on.
pub open spec fn degraded(observed_at_ms: i64, flows_seen: usize, error: Seq<char>) -> HealthView {
    HealthView {
        state: CollectorHealthState::Degraded,
        observed_at_ms,
        flows_seen,
        flows_emitted: 0,
        last_error: Some(error),
    }
}

/// The source could not be read.
pub open spec fn unhealthy(observed_at_ms: i64, error: Seq<char>) -> HealthView {
    HealthView {
        state: CollectorHealthState::Unhealthy,
        observed_at_ms,
        flows_seen: 0,
        flows_emitted: 0,
        last_error: Some(error),
    }
}

impl CollectorHealth {
    /// Reports that all flows that were seen were handed on.
    pub fn healthy(observed_at_ms: i64, flow_count: usize) -> (r: Self)
        ensures
            r@ == healthy(observed_at_ms, flow_count),
    {
        CollectorHealth {
            state: CollectorHealthState::Healthy,
            observed_at_ms,
            flows_seen: flow_count,
            flows_emitted: flow_count,
            last_error: None,
        }
    }

    /// Reports that flows were seen but not handed on.
    pub fn degraded(observed_at_ms: i64, flows_seen: usize, error: &CollectorError) -> (r: Self)
        ensures
            r@ == degraded(observed_at_ms, flows_seen, error.text()),
    {
        CollectorHealth {
            state: CollectorHealthState::Degraded,
            observed_at_ms,
            flows_seen,
            flows_emitted: 0,
            last_error: Some(error.message()),
        }
    }

    /// Reports that the source could not be read.
    pub fn unhealthy(observed_at_ms: i64, error: &CollectorError) -> (r: Self)
        ensures
            r@ == unhealthy(observed_at_ms, error.text()),
    {
        CollectorHealth {
            state: CollectorHealthState::Unhealthy,
            observed_at_ms,
            flows_seen: 0,
            flows_emitted: 0,
            last_error: Some(error.message()),
        }
    }
}

/// Why no flows were collected.
#[derive(Debug, PartialEq, Eq)]
pub enum CollectorError {
    SourceUnavailable { source: &'static str, message: String },
    InvalidFlow { source: &'static str, flow_id: String, reason: String },
    DuplicateFlowId { source: &'static str, flow_id: String },
    CounterReset { source: &'static str, flow_id: String, reset: CounterReset },
}

impl CollectorError {
    /// The text that describes the error.
    pub open spec fn text(self) -> Seq<char> {
        match self {
            CollectorError::SourceUnavailable { source, message } => source@
                + " source unavailable: "@ + message@,
            CollectorError::InvalidFlow { source, flow_id, reason } => source@
                + " produced invalid flow "@ + flow_id@ + ": "@ + reason@,
            CollectorError::DuplicateFlowId { source, flow_id } => source@
                + " emitted duplicate flow_id "@ + flow_id@,
            CollectorError::CounterReset { source, flow_id, reset } => source@
                + " counter reset for flow "@ + flow_id@ + ": "@ + reset.text(),
        }
    }

    /// Describes the error.
    pub fn message(&self) -> (r: String)
        ensures
            r@ == self.text(),
    {
        match self {
            CollectorError::SourceUnavailable { source, message } => {
                let mut out = (*source).to_owned();
                out.append(" source unavailable: ");
                out.append(message.as_str());
                out
            },
            CollectorError::InvalidFlow { source, flow_id, reason } => {
                let mut out = (*source).to_owned();
                out.append(" produced invalid flow ");
                out.append(flow_id.as_str());
                out.append(": ");
                out.append(reason.as_str());
                out
            },
            CollectorError::DuplicateFlowId { source, flow_id } => {
                let mut out = (*source).to_owned();
                out.append(" emitted duplicate flow_id ");
                out.append(flow_id.as_str());
                out
            },
            CollectorError::CounterReset { source, flow_id, reset } => {
                let mut out = (*source).to_owned();
                out.append(" counter reset for flow ");
                out.append(flow_id.as_str());
                out.append(": ");
                out.append(reset.message().as_str());
                out
            },
        }
    }
}

/// Flows that were collected, with the report.
#[derive(Debug)]
pub struct CollectionBatch {
    pub observed_at_ms: i64,
    pub flows: Vec<Flow>,
    pub health: CollectorHealth,
}

/// Why nothing was collected, with the report.
#[derive(Debug)]
pub struct CollectorFailure {
    pub error: CollectorError,
    pub health: CollectorHealth,
}

/// What comes of one collection.
pub type CollectionResult = Result<CollectionBatch, CollectorFailure>;

/// Where flows come from.
pub trait FlowCollector {
    /// The name of the source.
    fn source_name(&self) -> &'static str;

    /// Collects once. The first time is that of the wall clock; the second is that of a clock that
    /// never goes back.
    fn collect(&mut self, now_ms: i64, now_ns: u64) -> CollectionResult;
}

/// What is wrong with a batch.
pub enum BatchProblem {
    Duplicate(Seq<char>),
    Invalid(Seq<char>, Seq<char>),
}

/// A flow of the list has the identity.
pub open spec fn has_id(flows: Seq<crate::domain::FlowView>, id: Seq<char>) -> bool {
    exists|i: int| 0 <= i < flows.len() && (#[trigger] flows[i]).flow_id == id
}

/// The first thing that is wrong with a batch: a flow that has the identity of an earlier one, or
/// breaks a rule.
pub open spec fn batch_problem(flows: Seq<crate::domain::FlowView>) -> Option<BatchProblem>
    decreases flows.len(),
{
    if flows.len() == 0 {
        None
    } else {
        match batch_problem(flows.drop_last()) {
            Some(p) => Some(p),
            None => if has_id(flows.drop_last(), flows.last().flow_id) {
                Some(BatchProblem::Duplicate(flows.last().flow_id))
            } else {
                match crate::domain::flow_fault(flows.last()) {
                    Some(reason) => Some(BatchProblem::Invalid(flows.last().flow_id, reason)),
                    None => None,
                }
            },
        }
    }
}

proof fn lemma_problem_stays(flows: Seq<crate::domain::FlowView>, i: int)
    requires
        0 <= i <= flows.len(),
        batch_problem(flows.take(i)) is Some,
    ensures
        batch_problem(flows) == batch_problem(flows.take(i)),
    decreases flows.len() - i,
{
    if i < flows.len() {
        assert(flows.take(i + 1).drop_last() =~= flows.take(i));
        lemma_problem_stays(flows, i + 1);
    } else {
        assert(flows.take(i) =~= flows);
    }
}

/// A batch without a problem holds valid flows with distinct identities.
pub proof fn sound_batches_are_valid_and_distinct(flows: Seq<crate::domain::FlowView>)
    requires
        batch_problem(flows) is None,
    ensures
        forall|i: int|
            0 <= i < flows.len() ==> crate::domain::flow_valid(#[trigger] flows[i]),
        forall|i: int, j: int|
            0 <= i < j < flows.len() ==> (#[trigger] flows[i]).flow_id != (
            #[trigger] flows[j]).flow_id,
    decreases flows.len(),
{
    if flows.len() > 0 {
        let t = flows.drop_last();
        sound_batches_are_valid_and_distinct(t);
        assert forall|i: int| 0 <= i < flows.len() implies crate::domain::flow_valid(
            #[trigger] flows[i],
        ) by {
            if i < t.len() {
                assert(t[i] == flows[i]);
            }
        }
        assert forall|i: int, j: int| 0 <= i < j < flows.len() implies (
        #[trigger] flows[i]).flow_id != (#[trigger] flows[j]).flow_id by {
            assert(t[i] == flows[i]);
            if j < t.len() {
                assert(t[j] == flows[j]);
            }
        }
    }
}

fn known_before(flows: &Vec<Flow>, i: usize) -> (r: bool)
    requires
        i < flows@.len(),
    ensures
        r == has_id(crate::dns::flow_views(flows@).take(i as int), flows@[i as int].flow_id@),
{
    let ghost before = crate::dns::flow_views(flows@).take(i as int);
    let ghost id = flows@[i as int].flow_id@;
    let mut k: usize = 0;
    while k < i
        invariant
            k <= i < flows@.len(),
            before == crate::dns::flow_views(flows@).take(i as int),
            id == flows@[i as int].flow_id@,
            forall|j: int| 0 <= j < k ==> (#[trigger] before[j]).flow_id != id,
        decreases i - k,
    {
        proof {
            assert(before[k as int].flow_id == flows@[k as int].flow_id@);
        }
        if str_eq(flows[k].flow_id.as_str(), flows[i].flow_id.as_str()) {
            return true;
        }
        k = k + 1;
    }
    false
}

/// The result of a collection is the batch, or says what is wrong with it.
pub open spec fn batch_result(
    r: CollectionResult,
    source: Seq<char>,
    flows: Seq<crate::domain::FlowView>,
    now_ms: i64,
) -> bool {
    match (r, batch_problem(flows)) {
        (Ok(batch), None) => {
            &&& crate::dns::flow_views(batch.flows@) == flows
            &&& batch.observed_at_ms == now_ms
            &&& batch.health@ == healthy(now_ms, flows.len() as usize)
        },
        (Err(failure), Some(problem)) => {
            &&& match (failure.error, problem) {
                (
                    CollectorError::DuplicateFlowId { source: s, flow_id },
                    BatchProblem::Duplicate(id),
                ) => s@ == source && flow_id@ == id,
                (
                    CollectorError::InvalidFlow { source: s, flow_id, reason },
                    BatchProblem::Invalid(id, why),
                ) => s@ == source && flow_id@ == id && reason@ == why,
                _ => false,
            }
            &&& failure.health@ == degraded(
                now_ms,
                flows.len() as usize,
                failure.error.text(),
            )
        },
        _ => false,
    }
}

/// Checks a batch: no identity may occur twice, and every flow must be valid.
pub fn validate_batch(source: &'static str, flows: Vec<Flow>, now_ms: i64) -> (r: CollectionResult)
    ensures
        batch_result(r, source@, crate::dns::flow_views(flows@), now_ms),
        r matches Ok(batch) ==> batch.flows@ == flows@,
{
    let ghost views = crate::dns::flow_views(flows@);
    let flows_seen: usize = flows.len();
    let mut i: usize = 0;
    while i < flows.len()
        invariant
            views == crate::dns::flow_views(flows@),
            flows_seen == flows@.len(),
            i <= flows@.len(),
            batch_problem(views.take(i as int)) is None,
        decreases flows@.len() - i,
    {
        proof {
            assert(views.take(i + 1).drop_last() =~= views.take(i as int));
            assert(views.take(i + 1).last() == flows@[i as int]@);
        }
        if known_before(&flows, i) {
            let error = CollectorError::DuplicateFlowId {
                source,
                flow_id: flows[i].flow_id.clone(),
            };
            proof {
                lemma_problem_stays(views, i + 1);
            }
            let health = CollectorHealth::degraded(now_ms, flows_seen, &error);
            return Err(CollectorFailure { error, health });
        }
        if let Err(reason) = flows[i].validate() {
            let error = CollectorError::InvalidFlow {
                source,
                flow_id: flows[i].flow_id.clone(),
                reason: reason.to_owned(),
            };
            proof {
                lemma_problem_stays(views, i + 1);
            }
            let health = CollectorHealth::degraded(now_ms, flows_seen, &error);
            return Err(CollectorFailure { error, health });
        }
        i = i + 1;
    }
    proof {
        assert(views.take(i as int) =~= views);
    }
    Ok(
        CollectionBatch {
            observed_at_ms: now_ms,
            flows,
            health: CollectorHealth::healthy(now_ms, flows_seen),
        },
    )
}

/// The failure says that a source could not be read.
pub open spec fn is_source_failure(
    f: CollectorFailure,
    source: Seq<char>,
    message: Seq<char>,
    now_ms: i64,
) -> bool {
    &&& match f.error {
        CollectorError::SourceUnavailable { source: s, message: m } => s@ == source && m@
            == message,
        _ => false,
    }
    &&& f.health@ == unhealthy(now_ms, source + " source unavailable: "@ + message)
}

/// Says that a source could not be read.
pub fn source_failure(source: &'static str, message: &str, now_ms: i64) -> (r: CollectorFailure)
    ensures
        is_source_failure(r, source@, message@, now_ms),
{
    let error = CollectorError::SourceUnavailable { source, message: message.to_owned() };
    let health = CollectorHealth::unhealthy(now_ms, &error);
    CollectorFailure { error, health }
}

/// The flow with what the connection table says of it: its translation, if there is one, and its
/// state. Nothing else changes, and nothing at all where the table does not say.
pub open spec fn enriched(
    entries: Seq<crate::conntrack::ConntrackEntry>,
    f: crate::domain::FlowView,
) -> crate::domain::FlowView {
    match crate::conntrack::association_of(entries, f) {
        Association::Matched(e) => match e.translation() {
            Some(m) => crate::domain::FlowView {
                nat_source_ip: Some(m.source_ip.text()),
                nat_source_port: Some(m.source_port),
                nat_destination_ip: Some(m.destination_ip.text()),
                nat_destination_port: Some(m.destination_port),
                connection_state: e.state,
                ..f
            },
            None => crate::domain::FlowView { connection_state: e.state, ..f },
        },
        _ => f,
    }
}

/// Adds what the connection table says of a flow.
pub fn enrich_flow(snapshot: &ConntrackSnapshot, flow: &mut Flow)
    ensures
        final(flow)@ == enriched(snapshot.entries@, old(flow)@),
{
    if let Association::Matched(entry) = snapshot.associate(&*flow) {
        if let Some(mapping) = entry.nat_mapping() {
            flow.nat_source_ip = Some(mapping.source_ip.to_text());
            flow.nat_source_port = Some(mapping.source_port);
            flow.nat_destination_ip = Some(mapping.destination_ip.to_text());
            flow.nat_destination_port = Some(mapping.destination_port);
        }
        flow.connection_state = entry.state;
    }
}

/// The batch with what a look into the connection table gave: each flow has what the table says of
/// it. Where the table could not be read the flows stay, and the report is degraded.
pub open spec fn batch_enriched(
    batch: CollectionBatch,
    snapshot: Result<ConntrackSnapshot, String>,
    r: CollectionBatch,
) -> bool {
    &&& r.observed_at_ms == batch.observed_at_ms
    &&& match snapshot {
        Ok(s) => {
            &&& r.health@ == batch.health@
            &&& r.flows@.len() == batch.flows@.len()
            &&& forall|i: int|
                #![trigger r.flows@[i]]
                0 <= i < batch.flows@.len() ==> r.flows@[i]@ == enriched(
                    s.entries@,
                    batch.flows@[i]@,
                )
        },
        Err(e) => {
            &&& r.flows@ == batch.flows@
            &&& r.health@ == (HealthView {
                state: CollectorHealthState::Degraded,
                last_error: Some(e@),
                flows_emitted: batch.flows@.len() as usize,
                ..batch.health@
            })
        },
    }
}

/// Adds what the connection table says to the flows of a batch. Where the table could not be read,
/// the flows are handed on as they are, and the report says so.
pub fn enrich_batch(
    batch: CollectionBatch,
    snapshot: Result<ConntrackSnapshot, String>,
) -> (r: CollectionBatch)
    ensures
        batch_enriched(batch, snapshot, r),
{
    let ghost before = batch.flows@;
    let CollectionBatch { observed_at_ms, flows, health } = batch;
    let mut flows = flows;
    let mut health = health;
    match snapshot {
        Err(error) => {
            health.state = CollectorHealthState::Degraded;
            health.last_error = Some(error);
            health.flows_emitted = flows.len();
            CollectionBatch { observed_at_ms, flows, health }
        },
        Ok(snapshot) => {
            let mut i: usize = 0;
            while i < flows.len()
                invariant
                    before.len() == flows@.len(),
                    i <= before.len(),
                    forall|j: int|
                        #![trigger flows@[j]]
                        0 <= j < i ==> flows@[j]@ == enriched(snapshot.entries@, before[j]@),
                    forall|j: int| i <= j < before.len() ==> flows@[j] == before[j],
                decreases before.len() - i,
            {
                enrich_flow(&snapshot, &mut flows[i]);
                i = i + 1;
            }
            CollectionBatch { observed_at_ms, flows, health }
        },
    }
}

/// Enrichment never changes who a flow is, what it counted or when it was seen.
pub proof fn enrichment_keeps_identity_and_counters(
    entries: Seq<crate::conntrack::ConntrackEntry>,
    f: crate::domain::FlowView,
)
    ensures
        ({
            let g = enriched(entries, f);
            g == crate::domain::FlowView {
                nat_source_ip: g.nat_source_ip,
                nat_source_port: g.nat_source_port,
                nat_destination_ip: g.nat_destination_ip,
                nat_destination_port: g.nat_destination_port,
                connection_state: g.connection_state,
                ..f
            }
        }),
        crate::domain::flow_valid(f) ==> crate::domain::flow_valid(enriched(entries, f)),
{
}

/// Adds what the connection table says to the flows of another collector.
pub struct ConntrackEnrichedCollector<C: FlowCollector, R: ConntrackReader> {
    pub base: C,
    pub conntrack: R,
}

impl<C: FlowCollector, R: ConntrackReader> ConntrackEnrichedCollector<C, R> {
    /// Combines a collector and a connection table.
    pub fn new(base: C, conntrack: R) -> (r: Self)
        ensures
            r.base == base,
            r.conntrack == conntrack,
    {
        ConntrackEnrichedCollector { base, conntrack }
    }
}

impl<C: FlowCollector, R: ConntrackReader> FlowCollector for ConntrackEnrichedCollector<C, R> {
    fn source_name(&self) -> (r: &'static str)
        ensures
            r@ == "tc-ebpf+conntrack"@,
    {
        "tc-ebpf+conntrack"
    }

    /// Collects from the other collector; where that succeeds, this does, whatever the table says.
    fn collect(&mut self, now_ms: i64, now_ns: u64) -> (r: CollectionResult)
        ensures
            exists|base: &mut C, got: CollectionResult| #[trigger]
                call_ensures(C::collect, (base, now_ms, now_ns), got) && *base == old(self).base
                    && (*final(base)) == final(self).base && match got {
                    Err(failure) => r == CollectionResult::Err(failure) && final(self).conntrack
                        == old(self).conntrack,
                    Ok(batch) => r is Ok && exists|
                        reader: &mut R,
                        snapshot: Result<ConntrackSnapshot, String>,
                    | #[trigger]
                        call_ensures(R::snapshot, (reader, now_ns), snapshot) && *reader == old(
                            self,
                        ).conntrack && (*final(reader)) == final(self).conntrack
                            && batch_enriched(batch, snapshot, r->Ok_0),
                },
    {
        match self.base.collect(now_ms, now_ns) {
            Err(failure) => Err(failure),
            Ok(batch) => {
                let snapshot = self.conntrack.snapshot(now_ns);
                Ok(enrich_batch(batch, snapshot))
            },
        }
    }
}

/// A source that has no implementation.
pub struct DnsAttributionCollector {}

impl FlowCollector for DnsAttributionCollector {
    fn source_name(&self) -> (r: &'static str)
        ensures
            r@ == "dns-attribution"@,
    {
        "dns-attribution"
    }

    /// Always says that the source cannot be read.
    fn collect(&mut self, now_ms: i64, now_ns: u64) -> (r: CollectionResult)
        ensures
            r matches Err(f) && is_source_failure(
                f,
                "dns-attribution"@,
                "collector is not implemented"@,
                now_ms,
            ),
    {
        Err(source_failure("dns-attribution", "collector is not implemented", now_ms))
    }
}

} // verus!
