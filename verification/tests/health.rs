use routescope::api::{health_check, readiness_check};
use routescope::collector::{CollectorHealth, CollectorHealthState};
use routescope::state::CollectorHealthTracker;

fn healthy() -> CollectorHealth {
    CollectorHealth {
        state: CollectorHealthState::Healthy,
        observed_at_ms: 1_000,
        flows_seen: 2,
        flows_emitted: 2,
        last_error: None,
    }
}

#[test]
fn enabled_collector_starts_not_ready() {
    let tracker = CollectorHealthTracker::new(Some("tc_ebpf"));
    let snapshot = tracker.snapshot();
    assert!(snapshot.enabled);
    assert_eq!(snapshot.state, "starting");
    assert!(!snapshot.ready);
}

#[test]
fn disabled_collector_is_immediately_ready() {
    let tracker = CollectorHealthTracker::new(None);
    let snapshot = tracker.snapshot();
    assert!(!snapshot.enabled);
    assert_eq!(snapshot.state, "disabled");
    assert!(snapshot.ready);
}

#[test]
fn first_successful_batch_marks_ready() {
    let mut tracker = CollectorHealthTracker::new(Some("simulated"));
    tracker.record_batch(&healthy(), Ok(2));
    let snapshot = tracker.snapshot();
    assert_eq!(snapshot.state, "healthy");
    assert!(snapshot.ready);
}

#[test]
fn ingest_failure_preserves_collector_state() {
    let mut tracker = CollectorHealthTracker::new(Some("simulated"));
    tracker.record_batch(&healthy(), Err("disk full".to_owned()));
    let snapshot = tracker.snapshot();
    assert_eq!(snapshot.state, "healthy");
    assert!(!snapshot.ready);
    assert_eq!(snapshot.consecutive_failures, 1);
    assert_eq!(snapshot.last_error.as_deref(), Some("disk full"));
}

#[test]
fn failures_add_up_until_a_batch_is_stored() {
    let mut tracker = CollectorHealthTracker::new(Some("simulated"));
    tracker.record_batch(&healthy(), Ok(2));
    let mut gone = healthy();
    gone.state = CollectorHealthState::Unhealthy;
    gone.observed_at_ms = 2_000;
    gone.flows_seen = 0;
    gone.last_error = Some("gone".to_owned());
    tracker.record_failure(&gone);
    tracker.record_failure(&gone);
    let snapshot = tracker.snapshot();
    assert_eq!(snapshot.state, "unhealthy");
    assert!(!snapshot.ready);
    assert_eq!(snapshot.consecutive_failures, 2);
    assert_eq!(snapshot.flows_ingested, 2);
    assert_eq!(snapshot.last_success_at_ms, Some(1_000));
    assert_eq!(snapshot.observed_at_ms, Some(2_000));

    tracker.record_batch(&healthy(), Ok(3));
    let snapshot = tracker.snapshot();
    assert_eq!(snapshot.consecutive_failures, 0);
    assert_eq!(snapshot.flows_ingested, 5);
    assert_eq!(snapshot.last_error, None);
    assert!(snapshot.ready);
}

#[test]
fn health_endpoints_follow_the_collector() {
    let mut tracker = CollectorHealthTracker::new(Some("simulated"));
    assert_eq!(health_check(&tracker.snapshot()), "ok");
    assert_eq!(readiness_check(&tracker.snapshot()), (503, "starting"));
    tracker.record_batch(&healthy(), Ok(1));
    assert_eq!(readiness_check(&tracker.snapshot()), (200, "ready"));
    let mut degraded = healthy();
    degraded.state = CollectorHealthState::Degraded;
    tracker.record_batch(&degraded, Ok(1));
    assert_eq!(health_check(&tracker.snapshot()), "degraded");
    assert_eq!(readiness_check(&tracker.snapshot()), (200, "ready"));
    degraded.state = CollectorHealthState::Unhealthy;
    tracker.record_batch(&degraded, Ok(1));
    assert_eq!(health_check(&tracker.snapshot()), "degraded");
    assert_eq!(readiness_check(&tracker.snapshot()), (503, "starting"));
}
