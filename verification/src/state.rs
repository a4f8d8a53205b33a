//! What is known of the collector while the process runs.
use vstd::prelude::*;
use vstd::string::*;

use crate::collector::{CollectorHealth, CollectorHealthState};
use crate::text::clone_opt;

verus! {

/// What the health endpoints report of the collector.
#[derive(Debug, PartialEq, Eq)]
pub struct CollectorHealthSnapshot {
    pub enabled: bool,
    pub source: Option<String>,
    pub state: String,
    pub ready: bool,
    pub observed_at_ms: Option<i64>,
    pub last_success_at_ms: Option<i64>,
    pub flows_seen: usize,
    pub flows_emitted: usize,
    pub flows_ingested: usize,
    pub consecutive_failures: u64,
    pub last_error: Option<String>,
}

/// A report as a mathematical value.
#[verifier::ext_equal]
pub struct SnapshotView {
    pub enabled: bool,
    pub source: Option<Seq<char>>,
    pub state: Seq<char>,
    pub ready: bool,
    pub observed_at_ms: Option<i64>,
    pub last_success_at_ms: Option<i64>,
    pub flows_seen: usize,
    pub flows_emitted: usize,
    pub flows_ingested: usize,
    pub consecutive_failures: u64,
    pub last_error: Option<Seq<char>>,
}

impl View for CollectorHealthSnapshot {
    type V = SnapshotView;

    open spec fn view(&self) -> SnapshotView {
        SnapshotView {
            enabled: self.enabled,
            source: crate::text::opt_view(self.source),
            state: self.state@,
            ready: self.ready,
            observed_at_ms: self.observed_at_ms,
            last_success_at_ms: self.last_success_at_ms,
            flows_seen: self.flows_seen,
            flows_emitted: self.flows_emitted,
            flows_ingested: self.flows_ingested,
            consecutive_failures: self.consecutive_failures,
            last_error: crate::text::opt_view(self.last_error),
        }
    }
}

impl Clone for CollectorHealthSnapshot {
    fn clone(&self) -> (r: Self)
        ensures
            r == *self,
    {
        CollectorHealthSnapshot {
            enabled: self.enabled,
            source: clone_opt(&self.source),
            state: self.state.clone(),
            ready: self.ready,
            observed_at_ms: self.observed_at_ms,
            last_success_at_ms: self.last_success_at_ms,
            flows_seen: self.flows_seen,
            flows_emitted: self.flows_emitted,
            flows_ingested: self.flows_ingested,
            consecutive_failures: self.consecutive_failures,
            last_error: clone_opt(&self.last_error),
        }
    }
}

/// What is known before anything was collected. A collector that is switched on is not ready
/// before its first batch; without a collector there is nothing to wait for.
pub open spec fn started(source: Option<Seq<char>>) -> SnapshotView {
    SnapshotView {
        enabled: source is Some,
        source,
        state: if source is Some {
            "starting"@
        } else {
            "disabled"@
        },
        ready: source is None,
        observed_at_ms: None,
        last_success_at_ms: None,
        flows_seen: 0,
        flows_emitted: 0,
        flows_ingested: 0,
        consecutive_failures: 0,
        last_error: None,
    }
}

/// What is known after a collection, whether or not it succeeded.
pub open spec fn observed(
    s: SnapshotView,
    health: crate::collector::HealthView,
) -> SnapshotView {
    SnapshotView {
        state: health.state.text(),
        observed_at_ms: Some(health.observed_at_ms),
        flows_seen: health.flows_seen,
        flows_emitted: health.flows_emitted,
        ..s
    }
}

/// One more failure.
pub open spec fn one_more(n: u64) -> u64 {
    if n == u64::MAX {
        u64::MAX
    } else {
        (n + 1) as u64
    }
}

/// What is known after a batch was collected and its flows were stored, or could not be.
pub open spec fn after_batch(
    s: SnapshotView,
    health: crate::collector::HealthView,
    ingested: Result<usize, Seq<char>>,
) -> SnapshotView {
    match ingested {
        Ok(count) => SnapshotView {
            flows_ingested: if s.flows_ingested + count > usize::MAX {
                usize::MAX
            } else {
                (s.flows_ingested + count) as usize
            },
            last_success_at_ms: Some(health.observed_at_ms),
            consecutive_failures: 0,
            last_error: health.last_error,
            ready: health.state != CollectorHealthState::Unhealthy,
            ..observed(s, health)
        },
        Err(error) => SnapshotView {
            consecutive_failures: one_more(s.consecutive_failures),
            last_error: Some(error),
            ready: false,
            ..observed(s, health)
        },
    }
}

/// What is known after nothing could be collected.
pub open spec fn after_failure(
    s: SnapshotView,
    health: crate::collector::HealthView,
) -> SnapshotView {
    SnapshotView {
        consecutive_failures: one_more(s.consecutive_failures),
        last_error: health.last_error,
        ready: false,
        ..observed(s, health)
    }
}

/// The outcome of storing, as a mathematical value.
pub open spec fn ingested_view(r: Result<usize, String>) -> Result<usize, Seq<char>> {
    match r {
        Ok(n) => Ok(n),
        Err(e) => Err(e@),
    }
}

/// Keeps what is known of the collector.
pub struct CollectorHealthTracker {
    pub current: CollectorHealthSnapshot,
}

impl CollectorHealthTracker {
    /// Starts to keep track of a collector, or of none.
    pub fn new(source: Option<&'static str>) -> (r: Self)
        ensures
            r.current@ == started(
                match source {
                    Some(s) => Some(s@),
                    None => None,
                },
            ),
    {
        let enabled = source.is_some();
        CollectorHealthTracker {
            current: CollectorHealthSnapshot {
                enabled,
                source: match source {
                    Some(s) => Some(s.to_owned()),
                    None => None,
                },
                state: if enabled {
                    "starting".to_owned()
                } else {
                    "disabled".to_owned()
                },
                ready: !enabled,
                observed_at_ms: None,
                last_success_at_ms: None,
                flows_seen: 0,
                flows_emitted: 0,
                flows_ingested: 0,
                consecutive_failures: 0,
                last_error: None,
            },
        }
    }

    /// What is known now.
    pub fn snapshot(&self) -> (r: CollectorHealthSnapshot)
        ensures
            r == self.current,
    {
        self.current.clone()
    }

    /// Notes a batch, with the number of flows that were stored or the reason why none was. The
    /// state stays the one that the collector reported, also where storing failed.
    pub fn record_batch(&mut self, health: &CollectorHealth, ingested: Result<usize, String>)
        ensures
            final(self).current@ == after_batch(
                old(self).current@,
                health@,
                ingested_view(ingested),
            ),
    {
        self.observe(health);
        match ingested {
            Ok(count) => {
                self.current.flows_ingested = self.current.flows_ingested.saturating_add(count);
                self.current.last_success_at_ms = Some(health.observed_at_ms);
                self.current.consecutive_failures = 0;
                self.current.last_error = clone_opt(&health.last_error);
                self.current.ready = !matches!(health.state, CollectorHealthState::Unhealthy);
            },
            Err(error) => {
                self.current.consecutive_failures =
                self.current.consecutive_failures.saturating_add(1);
                self.current.last_error = Some(error);
                self.current.ready = false;
            },
        }
    }

    /// Notes that nothing could be collected.
    pub fn record_failure(&mut self, health: &CollectorHealth)
        ensures
            final(self).current@ == after_failure(old(self).current@, health@),
    {
        self.observe(health);
        self.current.consecutive_failures = self.current.consecutive_failures.saturating_add(1);
        self.current.last_error = clone_opt(&health.last_error);
        self.current.ready = false;
    }

    fn observe(&mut self, health: &CollectorHealth)
        ensures
            final(self).current@ == observed(old(self).current@, health@),
    {
        self.current.state = health.state.as_str().to_owned();
        self.current.observed_at_ms = Some(health.observed_at_ms);
        self.current.flows_seen = health.flows_seen;
        self.current.flows_emitted = health.flows_emitted;
    }
}

/// The collector is ready after a batch exactly when its flows were stored and it did not report
/// itself unhealthy; what went before does not matter.
pub proof fn readiness_follows_the_last_batch(
    s: SnapshotView,
    health: crate::collector::HealthView,
    ingested: Result<usize, Seq<char>>,
)
    ensures
        after_batch(s, health, ingested).ready == (ingested is Ok && health.state
            != CollectorHealthState::Unhealthy),
        after_batch(s, health, ingested).state == health.state.text(),
        !after_failure(s, health).ready,
{
}

/// A collection that fails leaves what was stored before as it is known, and the next batch that is
/// stored ends the row of failures.
pub proof fn failures_end_with_a_stored_batch(
    s: SnapshotView,
    failed: crate::collector::HealthView,
    health: crate::collector::HealthView,
    count: usize,
)
    ensures
        after_failure(s, failed).flows_ingested == s.flows_ingested,
        after_failure(s, failed).last_success_at_ms == s.last_success_at_ms,
        s.consecutive_failures < u64::MAX ==> after_failure(s, failed).consecutive_failures
            == s.consecutive_failures + 1,
        after_batch(after_failure(s, failed), health, Ok(count)).consecutive_failures == 0,
        after_batch(after_failure(s, failed), health, Ok(count)).last_success_at_ms == Some(
            health.observed_at_ms,
        ),
{
}

} // verus!
