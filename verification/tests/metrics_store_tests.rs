//! The in-memory time-series store, with explicit millisecond timestamps.

use kairos_rs::services::metrics_store::{AggregationInterval, MetricValue, MetricsStore};

const NOW: i64 = 1_700_000_000_000;
const HOUR_MS: i64 = 3_600_000;
const MINUTE_MS: i64 = 60_000;

#[test]
fn test_aggregation_interval_seconds() {
    assert_eq!(AggregationInterval::OneMinute.to_seconds(), 60);
    assert_eq!(AggregationInterval::FiveMinutes.to_seconds(), 300);
    assert_eq!(AggregationInterval::OneHour.to_seconds(), 3600);
    assert_eq!(AggregationInterval::OneDay.to_seconds(), 86400);
}

#[test]
fn test_aggregation_interval_millis() {
    assert_eq!(AggregationInterval::OneMinute.to_millis(), 60_000);
    assert_eq!(AggregationInterval::OneDay.to_millis(), 86_400_000);
}

#[test]
fn test_record_and_query() {
    let mut store = MetricsStore::new(1000, HOUR_MS);

    store.record("test_metric", MetricValue::Counter(100), NOW);

    let end = NOW + 1000;
    let start = end - 5 * MINUTE_MS;

    let points = store.query("test_metric", start, end);
    assert_eq!(points.len(), 1);

    match points[0].value {
        MetricValue::Counter(v) => assert_eq!(v, 100),
        _ => panic!("Expected counter value"),
    }
    assert_eq!(points[0].timestamp, NOW);
    assert!(store.query("other", start, end).is_empty());
}

#[test]
fn test_retention_limit() {
    let mut store = MetricsStore::new(5, HOUR_MS);

    for i in 0..10 {
        store.record("test", MetricValue::Counter(i), NOW + i as i64);
    }

    let end = NOW + 1000;
    let start = end - 2 * HOUR_MS;
    let points = store.query("test", start, end);

    assert!(points.len() <= 5);
    assert_eq!(points.len(), 5);
    assert_eq!(points[0].value, MetricValue::Counter(5));
    assert_eq!(points[4].value, MetricValue::Counter(9));
}

#[test]
fn test_old_points_expire() {
    let mut store = MetricsStore::new(100, HOUR_MS);
    store.record("lat", MetricValue::Counter(1), NOW - 2 * HOUR_MS);
    store.record("lat", MetricValue::Counter(2), NOW);
    let points = store.query("lat", 0, NOW + 1);
    assert_eq!(points.len(), 1);
    assert_eq!(points[0].value, MetricValue::Counter(2));
}

#[test]
fn test_list_metrics() {
    let mut store = MetricsStore::new(1000, HOUR_MS);

    store.record("metric1", MetricValue::Counter(1), NOW);
    store.record("metric2", MetricValue::Gauge(2.0f64.to_bits()), NOW);
    store.record("metric3", MetricValue::Counter(3), NOW);

    let names = store.list_metrics();
    assert_eq!(names.len(), 3);
    assert!(names.contains(&"metric1".to_string()));
    assert!(names.contains(&"metric2".to_string()));
    assert!(names.contains(&"metric3".to_string()));
}

#[test]
fn test_clear() {
    let mut store = MetricsStore::new(1000, HOUR_MS);

    store.record("test", MetricValue::Counter(1), NOW);
    assert_eq!(store.list_metrics().len(), 1);

    store.clear();
    assert_eq!(store.list_metrics().len(), 0);
}

#[test]
fn test_aggregation() {
    let mut store = MetricsStore::new(1000, HOUR_MS);

    for i in 1..=10 {
        store.record("response_time", MetricValue::Gauge((i as f64 * 10.0).to_bits()), NOW);
    }

    let end = NOW + 1000;
    let start = end - 5 * MINUTE_MS;

    let aggregated =
        store.query_aggregated("response_time", start, end, AggregationInterval::OneMinute);

    assert!(!aggregated.is_empty());
    assert_eq!(aggregated.len(), 1);
    assert_eq!(aggregated[0].values.len(), 10);
    assert_eq!(aggregated[0].start_time, start + 4 * MINUTE_MS);
    assert_eq!(aggregated[0].end_time, end);
}
