//! One round of collecting: what was collected gets its domains and is stored.
use vstd::prelude::*;
use vstd::string::*;

use crate::collector::{CollectionBatch, CollectionResult};
use crate::dns::{DnsAttributionCache, DnsObservation, DnsObservationSource};
use crate::domain::Flow;
use crate::service::ObservationService;
use crate::sql::StorageError;
use crate::state::CollectorHealthTracker;
use crate::storage::RouteScopeRepository;

verus! {

/// What a source answered was taken in, and what has expired is gone.
pub open spec fn refreshed(
    before: crate::dns::CacheView,
    after: crate::dns::CacheView,
    got: Result<Vec<DnsObservation>, String>,
    now_ms: i64,
) -> bool {
    after == crate::dns::purged(
        match got {
            Ok(batch) => crate::dns::ingested(
                before,
                crate::dns::observation_views(batch@),
                now_ms,
            ),
            Err(_) => before,
        },
        now_ms,
    )
}

/// What taking in the answer of a source comes to: how many bindings were made or renewed, or the
/// error of the source.
pub open spec fn refresh_outcome(
    before: crate::dns::CacheView,
    got: Result<Vec<DnsObservation>, String>,
    now_ms: i64,
) -> Result<usize, String> {
    match got {
        Ok(batch) => Ok(
            crate::dns::as_count(
                crate::dns::ingested_count(
                    before,
                    crate::dns::observation_views(batch@),
                    now_ms,
                ),
            ),
        ),
        Err(error) => Err(error),
    }
}

/// Takes in what a source has observed and drops what has expired.
pub fn refresh_dns_attribution<S: DnsObservationSource>(
    cache: &mut DnsAttributionCache,
    source: &mut S,
    now_ms: i64,
) -> (r: Result<usize, String>)
    requires
        old(cache).wf(),
    ensures
        final(cache).wf(),
        exists|asked: &mut S, got: Result<Vec<DnsObservation>, String>| #[trigger]
            call_ensures(S::collect, (asked,), got) && *asked == *old(source) && *final(asked)
                == *final(source) && refreshed(old(cache)@, final(cache)@, got, now_ms) && r
                == refresh_outcome(old(cache)@, got, now_ms),
{
    let taken = cache.collect_from(source, now_ms);
    cache.purge_expired(now_ms);
    taken
}

/// The flows with the domains that the cache knows for them.
pub open spec fn all_attributed(
    c: crate::dns::CacheView,
    flows: Seq<crate::domain::FlowView>,
) -> Seq<crate::domain::FlowView> {
    flows.map_values(|f: crate::domain::FlowView| crate::dns::attributed(c.bindings, f))
}

/// Learns from flows which addresses their clients had, and gives them their domains.
pub fn attribute_batch(cache: &mut DnsAttributionCache, batch: &mut CollectionBatch) -> (r: usize)
    requires
        old(cache).wf(),
    ensures
        final(cache).wf(),
        final(cache)@ == crate::dns::taught(
            old(cache)@,
            crate::dns::flow_views(old(batch).flows@),
            old(batch).observed_at_ms,
        ),
        crate::dns::flow_views(final(batch).flows@) == all_attributed(
            final(cache)@,
            crate::dns::flow_views(old(batch).flows@),
        ),
        final(batch).observed_at_ms == old(batch).observed_at_ms,
        final(batch).health == old(batch).health,
        r == crate::dns::flow_views(old(batch).flows@).filter(
            |f: crate::domain::FlowView|
                crate::dns::attribution_of(final(cache)@.bindings, f) is Some,
        ).len(),
{
    cache.learn_flow_identities(batch.flows.as_slice(), batch.observed_at_ms);
    let count: usize = cache.attribute_flows(&mut batch.flows);
    proof {
        assert(crate::dns::flow_views(batch.flows@) =~= all_attributed(
            cache@,
            crate::dns::flow_views(old(batch).flows@),
        ));
    }
    count
}

/// What went wrong in a round, for the log.
#[derive(Debug)]
pub struct CycleReport {
    /// Nothing could be collected.
    pub failure: Option<String>,
    /// The source of observed names failed.
    pub dns_error: Option<String>,
    /// The flows could not be stored.
    pub ingest_error: Option<String>,
}

/// The outcome of storing, as the tracker notes it.
pub open spec fn noted(outcome: Result<usize, StorageError>) -> Result<usize, Seq<char>> {
    match outcome {
        Ok(n) => Ok(n),
        Err(e) => Err(e.text()),
    }
}

/// Goes through one round with what was collected.
pub fn run_cycle<R: RouteScopeRepository, S: DnsObservationSource>(
    service: &mut ObservationService<R>,
    cache: &mut DnsAttributionCache,
    source: &mut S,
    tracker: &mut CollectorHealthTracker,
    collected: CollectionResult,
) -> (r: CycleReport)
    requires
        old(cache).wf(),
    ensures
        final(service).flow_retention_hours == old(service).flow_retention_hours,
        final(service).aggregate_retention_days == old(service).aggregate_retention_days,
        final(cache).wf(),
        match collected {
            Err(failure) => {
                &&& final(cache)@ == old(cache)@
                &&& *final(source) == *old(source)
                &&& *final(service) == *old(service)
                &&& final(tracker).current@ == crate::state::after_failure(
                    old(tracker).current@,
                    failure.health@,
                )
                &&& crate::text::opt_view(r.failure) == Some(failure.error.text())
                &&& r.dns_error is None
                &&& r.ingest_error is None
            },
            Ok(batch) => {
                &&& r.failure is None
                &&& exists|
                    asked: &mut S,
                    got: Result<Vec<DnsObservation>, String>,
                    fresh: crate::dns::CacheView,
                |
                    #![trigger
                        call_ensures(S::collect, (asked,), got),
                        refreshed(old(cache)@, fresh, got, batch.observed_at_ms)]
                    call_ensures(
                        S::collect,
                        (asked,),
                        got,
                    ) && *asked == *old(source) && (*final(asked))
                        == *final(source) && refreshed(
                        old(cache)@,
                        fresh,
                        got,
                        batch.observed_at_ms,
                    ) && final(cache)@ == crate::dns::taught(
                        fresh,
                        crate::dns::flow_views(batch.flows@),
                        batch.observed_at_ms,
                    ) && r.dns_error == (match got {
                        Ok(_) => None,
                        Err(error) => Some(error),
                    })
                &&& exists|
                    asked: &mut R,
                    given: Vec<Flow>,
                    outcome: Result<usize, StorageError>,
                | #[trigger]
                    call_ensures(R::upsert_flows, (asked, &given), outcome) && *asked == old(
                        service,
                    ).repo && (*final(asked)) == final(service).repo && crate::dns::flow_views(
                        given@,
                    ) == all_attributed(final(cache)@, crate::dns::flow_views(batch.flows@))
                        && final(tracker).current@ == crate::state::after_batch(
                        old(tracker).current@,
                        batch.health@,
                        noted(outcome),
                    ) && crate::text::opt_view(r.ingest_error) == (match outcome {
                        Ok(_) => None,
                        Err(e) => Some(e.text()),
                    })
            },
        },
{
    let mut report = CycleReport { failure: None, dns_error: None, ingest_error: None };
    match collected {
        Err(failure) => {
            tracker.record_failure(&failure.health);
            report.failure = Some(failure.error.message());
        },
        Ok(batch) => {
            let mut batch = batch;
            match refresh_dns_attribution(cache, source, batch.observed_at_ms) {
                Ok(_) => {},
                Err(error) => {
                    report.dns_error = Some(error);
                },
            }
            attribute_batch(cache, &mut batch);
            let outcome = service.ingest_flows(&batch.flows);
            match outcome {
                Ok(count) => {
                    tracker.record_batch(&batch.health, Ok(count));
                },
                Err(error) => {
                    let message = error.message();
                    report.ingest_error = Some(message.clone());
                    tracker.record_batch(&batch.health, Err(message));
                },
            }
        },
    }
    report
}

} // verus!
