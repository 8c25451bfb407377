use squaremap_server::metrics::Metrics;
use std::time::Duration;

#[test]
fn snapshot_is_bounded_and_deterministic() {
    let mut metrics = Metrics::default();
    metrics.set_queue_depth(4);
    metrics.observe_render_latency(Duration::from_nanos(9));
    metrics.inc_http_requests();
    metrics.inc_restarts();
    metrics.inc_protocol_errors();
    assert_eq!(metrics.snapshot().queue_depth, 4);
    assert_eq!(metrics.snapshot().render_latency_nanos, 9);
    assert_eq!(metrics.snapshot().http_requests, 1);
    assert_eq!(metrics.snapshot().restarts, 1);
    assert_eq!(metrics.snapshot().protocol_errors, 1);
}

#[test]
fn latency_saturates_at_u64_max() {
    let mut metrics = Metrics::new();
    metrics.observe_render_latency_nanos(u128::from(u64::MAX) + 5);
    assert_eq!(metrics.snapshot().render_latency_nanos, u64::MAX);
    metrics.observe_render_latency(Duration::from_secs(2));
    assert_eq!(metrics.snapshot().render_latency_nanos, 2_000_000_000);
}

#[test]
fn counters_start_at_zero_and_are_independent() {
    let mut metrics = Metrics::new();
    assert_eq!(metrics.snapshot().http_requests, 0);
    metrics.inc_http_requests();
    metrics.inc_http_requests();
    assert_eq!(metrics.snapshot().http_requests, 2);
    assert_eq!(metrics.snapshot().restarts, 0);
    assert_eq!(metrics.snapshot().protocol_errors, 0);
}

#[test]
fn every_increment_is_counted() {
    let mut metrics = Metrics::new();
    for _ in 0..5 {
        metrics.inc_http_requests();
    }
    metrics.inc_restarts();
    assert_eq!(metrics.snapshot().http_requests, 5);
    assert_eq!(metrics.snapshot().restarts, 1);
    assert_eq!(metrics.snapshot().protocol_errors, 0);
}
