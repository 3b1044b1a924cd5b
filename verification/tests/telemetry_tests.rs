use browser_core::telemetry::{ExportFormat, MetricsCollector, SpanTracker};

// -- MetricsCollector --

#[test]
fn metrics_collector_increments() {
    let mut mc = MetricsCollector::new();
    mc.record_navigation(150);
    mc.record_navigation(200);
    mc.record_cache_hit();
    mc.record_cache_miss();
    mc.record_action();
    mc.record_action();
    mc.record_action();
    mc.record_error();
    mc.record_api_discovery();

    let snap = mc.snapshot();
    assert_eq!(snap.pages_visited, 2);
    assert_eq!(snap.total_navigation_ms, 350);
    assert_eq!(snap.cache_hits, 1);
    assert_eq!(snap.cache_misses, 1);
    assert_eq!(snap.actions_executed, 3);
    assert_eq!(snap.errors_encountered, 1);
    assert_eq!(snap.api_calls_discovered, 1);
}

#[test]
fn metrics_snapshot_returns_current() {
    let mut mc = MetricsCollector::new();
    mc.record_navigation(100);
    let snap1 = mc.snapshot();
    assert_eq!(snap1.pages_visited, 1);

    mc.record_navigation(200);
    let snap2 = mc.snapshot();
    assert_eq!(snap2.pages_visited, 2);

    // snap1 is a copy, not affected by later mutations
    assert_eq!(snap1.pages_visited, 1);
}

#[test]
fn metrics_reset_zeroes() {
    let mut mc = MetricsCollector::new();
    mc.record_navigation(500);
    mc.record_cache_hit();
    mc.record_error();
    mc.reset();

    let snap = mc.snapshot();
    assert_eq!(snap.pages_visited, 0);
    assert_eq!(snap.total_navigation_ms, 0);
    assert_eq!(snap.cache_hits, 0);
    assert_eq!(snap.errors_encountered, 0);
}

// -- SpanTracker --

#[test]
fn span_start_and_end() {
    let mut tracker = SpanTracker::new();
    let id = tracker.start_span(
        "navigate",
        vec![("url".to_string(), "https://example.com".to_string())],
    );

    assert_eq!(tracker.active_spans().len(), 1);
    assert_eq!(tracker.completed_spans().len(), 0);

    tracker.end_span(id);

    assert_eq!(tracker.active_spans().len(), 0);
    assert_eq!(tracker.completed_spans().len(), 1);

    let completed = &tracker.completed_spans()[0];
    assert_eq!(completed.name, "navigate");
    assert!(completed.duration_ms.is_some());
    assert!(completed.ended_at.is_some());
}

#[test]
fn span_ids_are_sequential() {
    let mut tracker = SpanTracker::new();
    let id0 = tracker.start_span("a", vec![]);
    let id1 = tracker.start_span("b", vec![]);
    let id2 = tracker.start_span("c", vec![]);
    assert_eq!(id0, 0);
    assert_eq!(id1, 1);
    assert_eq!(id2, 2);
}

#[test]
fn span_multiple_active() {
    let mut tracker = SpanTracker::new();
    tracker.start_span("op1", vec![]);
    tracker.start_span("op2", vec![]);
    tracker.start_span("op3", vec![]);

    assert_eq!(tracker.active_spans().len(), 3);
    assert_eq!(tracker.completed_spans().len(), 0);
}

#[test]
fn export_format_variants() {
    let formats = vec![
        ExportFormat::Otlp,
        ExportFormat::Jaeger,
        ExportFormat::Zipkin,
        ExportFormat::Console,
    ];
    // Ensure they are all distinct
    for (i, a) in formats.iter().enumerate() {
        for (j, b) in formats.iter().enumerate() {
            if i == j {
                assert_eq!(a, b);
            } else {
                assert_ne!(a, b);
            }
        }
    }
}

#[test]
fn span_end_unknown_id_changes_nothing() {
    let mut tracker = SpanTracker::new();
    let id = tracker.start_span("only", vec![]);
    tracker.end_span(id + 7);
    assert_eq!(tracker.active_spans().len(), 1);
    assert_eq!(tracker.completed_spans().len(), 0);
}

#[test]
fn span_end_keeps_active_plus_completed_count() {
    let mut tracker = SpanTracker::new();
    let a = tracker.start_span("a", vec![]);
    let _b = tracker.start_span("b", vec![]);
    tracker.end_span(a);
    assert_eq!(tracker.active_spans().len() + tracker.completed_spans().len(), 2);
    assert_eq!(tracker.active_spans()[0].name, "b");
    assert_eq!(tracker.completed_spans()[0].name, "a");
}
