use arcane_swarm::metrics::{ErrorBreakdown, ErrorKind, Metrics, MetricsSnapshot};

#[test]
fn snapshot_and_reset_clears_counters() {
    let mut m = Metrics::new();
    m.record_ok(100);
    m.record_inbound_ok(42);
    m.record_err_kind(ErrorKind::Timeout);
    let s = m.snapshot_and_reset();
    assert_eq!(s.ok, 2);
    assert_eq!(s.bytes, 42);
    assert_eq!(s.errors.timeout, 1);
    assert_eq!(s.errors.total(), 1);
    let s2 = m.snapshot_and_reset();
    assert_eq!(s2.ok, 0);
    assert_eq!(s2.bytes, 0);
    assert_eq!(s2.errors.total(), 0);
}

#[test]
fn latency_average_and_maximum() {
    let mut m = Metrics::new();
    m.record_ok(100);
    m.record_ok(300);
    m.record_ok_bytes(200, 10);
    let s = m.snapshot_and_reset();
    assert_eq!(s.ok, 3);
    assert_eq!(s.latency_samples, 3);
    assert_eq!(s.latency_sum_us, 600);
    assert_eq!(s.avg_latency_us, 200);
    assert_eq!(s.max_latency_us, 300);
    assert_eq!(s.bytes, 10);
}

#[test]
fn decomposed_latency_tracks_wire_and_drain() {
    let mut m = Metrics::new();
    m.record_ok_decomposed(1_000, Some(400), 100);
    m.record_ok_decomposed(3_000, None, 300);
    let s = m.snapshot_and_reset();
    assert_eq!(s.ok, 2);
    assert_eq!(s.avg_latency_us, 2_000);
    assert_eq!(s.wire_latency_samples, 1);
    assert_eq!(s.avg_wire_latency_us, 400);
    assert_eq!(s.drain_latency_samples, 2);
    assert_eq!(s.avg_drain_latency_us, 200);
    assert_eq!(s.max_drain_latency_us, 300);
}

#[test]
fn every_error_kind_is_counted_under_its_key() {
    let mut m = Metrics::new();
    for k in ErrorKind::all() {
        m.record_err_kind(k);
    }
    m.record_err_kind(ErrorKind::Transport);
    m.record_err();
    let s = m.snapshot_and_reset();
    // A plain error counts as a transport error.
    assert_eq!(s.err, 7);
    assert_eq!(s.errors.transport, 3);
    assert_eq!(s.errors.total(), 7);
    assert_eq!(
        s.errors.to_json(),
        r#"{"timeout":1,"not_delivered":1,"http_status":1,"transport":3,"connection_drop":1}"#
    );
    assert_eq!(ErrorKind::ConnectionDrop.key(), "connection_drop");
    assert_eq!(ErrorKind::NotDelivered.key(), "not_delivered");
}

#[test]
fn count_only_successes_have_no_latency_sample() {
    let mut m = Metrics::new();
    m.record_ok_count();
    m.record_ok_count();
    let s = m.snapshot_and_reset();
    assert_eq!(s.ok, 2);
    assert_eq!(s.latency_samples, 0);
    assert_eq!(s.avg_latency_us, 0);
    let empty = ErrorBreakdown::default();
    assert_eq!(empty.total(), 0);
}

#[test]
fn snapshot_holds_exactly_the_recorded_samples() {
    let mut m = Metrics::new();
    m.record_ok(100);
    m.record_ok_decomposed(300, Some(40), 7);
    m.record_ok_count();
    m.record_ok_bytes(50, 9);
    m.record_err();
    m.record_inbound_ok(3);
    m.record_ok_decomposed(20, None, 1);
    let s = m.snapshot_and_reset();
    assert_eq!((s.latency_samples, s.latency_sum_us, s.max_latency_us), (4, 470, 300));
    assert_eq!(s.avg_latency_us, 470 / 4);
    assert_eq!((s.wire_latency_samples, s.max_wire_latency_us, s.avg_wire_latency_us), (1, 40, 40));
    assert_eq!((s.drain_latency_samples, s.max_drain_latency_us, s.avg_drain_latency_us), (2, 7, 4));
    assert_eq!(m.snapshot_and_reset(), MetricsSnapshot::default());
}
