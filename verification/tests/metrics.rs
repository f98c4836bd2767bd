use matmul::metrics::AmapMetrics;
use matmul::MetricsError;

#[test]
fn metrics_count_increments() {
    let mut m = AmapMetrics::new(&["dispatched", "completed"]);
    assert!(m.inc("dispatched").is_ok());
    assert!(m.inc("dispatched").is_ok());
    assert!(m.inc("completed").is_ok());
    assert_eq!(m.snapshot(), "dispatched: 2\ncompleted: 1\n");
}

#[test]
fn metrics_unknown_key_fails() {
    let mut m = AmapMetrics::new(&["dispatched"]);
    assert!(matches!(m.inc("missing"), Err(MetricsError::KeyNotFound)));
    assert_eq!(m.snapshot(), "dispatched: 0\n");
}

#[test]
fn metrics_start_at_zero() {
    let m = AmapMetrics::new(&["a", "b", "c"]);
    assert_eq!(m.snapshot(), "a: 0\nb: 0\nc: 0\n");
}

#[test]
fn metrics_collapse_repeated_names() {
    let mut m = AmapMetrics::new(&["a", "a", "b"]);
    assert!(m.inc("a").is_ok());
    assert_eq!(m.snapshot(), "a: 1\nb: 0\n");
}

#[test]
fn metrics_snapshot_of_empty_map() {
    let m = AmapMetrics::new(&[]);
    assert_eq!(m.snapshot(), "");
}
