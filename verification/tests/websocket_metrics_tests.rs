//! WebSocket connection accounting: connections, messages, bytes and errors.

use kairos_rs::services::websocket_metrics::{WebSocketMetrics, WebSocketMetricsGlobal};

#[test]
fn test_websocket_metrics_lifecycle() {
    let mut global = WebSocketMetricsGlobal::new();
    let mut metrics =
        WebSocketMetrics::new_with_global("/ws/test".to_string(), "backend1".to_string(), &mut global);

    assert_eq!(global.get_active_connections(), 1);
    assert_eq!(global.get_connections_total(), 1);

    metrics.record_message_sent(&mut global, "text", 100);
    metrics.record_message_received(&mut global, "text", 50);
    metrics.record_message_sent(&mut global, "binary", 1000);

    assert_eq!(global.get_messages_sent(), 2);
    assert_eq!(global.get_messages_received(), 1);
    assert_eq!(global.get_bytes_sent(), 1100);
    assert_eq!(global.get_bytes_received(), 50);

    metrics.record_error(&mut global, "forwarding_error");
    assert_eq!(global.get_connection_errors(), 1);

    metrics.record_ping_rtt(0.05f64.to_bits());

    metrics.record_close(&mut global, "normal");
    assert_eq!(global.get_active_connections(), 0);

    metrics.drop(&mut global);
    assert_eq!(global.get_active_connections(), 0);
}

#[test]
fn test_message_size_tracking() {
    let mut global = WebSocketMetricsGlobal::new();
    let mut metrics = WebSocketMetrics::new_with_global(
        "/ws/size_test".to_string(),
        "backend2".to_string(),
        &mut global,
    );

    metrics.record_message_sent(&mut global, "text", 10);
    metrics.record_message_sent(&mut global, "text", 1000);
    metrics.record_message_sent(&mut global, "binary", 100_000);

    assert_eq!(global.get_messages_sent(), 3);
    assert_eq!(global.get_bytes_sent(), 101_010);

    metrics.record_close(&mut global, "normal");
    metrics.drop(&mut global);
}

#[test]
fn test_global_metrics() {
    let mut global = WebSocketMetricsGlobal::new();

    let mut metrics1 =
        WebSocketMetrics::new_with_global("/ws/test1".to_string(), "backend1".to_string(), &mut global);
    let mut metrics2 =
        WebSocketMetrics::new_with_global("/ws/test2".to_string(), "backend2".to_string(), &mut global);

    assert_eq!(global.get_active_connections(), 2);
    assert_eq!(global.get_connections_total(), 2);

    metrics1.record_message_sent(&mut global, "text", 100);
    metrics2.record_message_sent(&mut global, "text", 200);

    assert_eq!(global.get_messages_sent(), 2);
    assert_eq!(global.get_bytes_sent(), 300);

    metrics1.record_close(&mut global, "normal");
    assert_eq!(global.get_active_connections(), 1);

    metrics2.record_close(&mut global, "normal");
    assert_eq!(global.get_active_connections(), 0);

    metrics1.drop(&mut global);
    metrics2.drop(&mut global);
    assert_eq!(global.get_active_connections(), 0);
}

#[test]
fn test_connection_cleanup_on_drop() {
    let mut global = WebSocketMetricsGlobal::new();

    {
        let mut metrics = WebSocketMetrics::new_with_global(
            "/ws/drop_test".to_string(),
            "backend1".to_string(),
            &mut global,
        );
        assert_eq!(global.get_active_connections(), 1);
        metrics.drop(&mut global);
    }

    assert_eq!(global.get_active_connections(), 0);
}

#[test]
fn test_concurrent_connections() {
    let mut global = WebSocketMetricsGlobal::new();

    let mut connections = Vec::new();
    for i in 0..10 {
        let mut metrics = WebSocketMetrics::new_with_global(
            format!("/ws/conn{}", i),
            format!("backend{}", i % 3),
            &mut global,
        );
        connections.push(metrics);
    }

    assert_eq!(global.get_active_connections(), 10);
    assert_eq!(global.get_connections_total(), 10);

    for metrics in &connections {
        metrics.record_message_sent(&mut global, "text", 100);
        metrics.record_message_received(&mut global, "text", 50);
    }

    assert_eq!(global.get_messages_sent(), 10);
    assert_eq!(global.get_messages_received(), 10);
    assert_eq!(global.get_bytes_sent(), 1000);
    assert_eq!(global.get_bytes_received(), 500);

    for metrics in connections.iter_mut().take(5) {
        metrics.record_close(&mut global, "normal");
    }

    assert_eq!(global.get_active_connections(), 5);

    for metrics in connections {
        metrics.drop(&mut global);
    }
    assert_eq!(global.get_active_connections(), 0);
}

#[test]
fn test_error_tracking() {
    let mut global = WebSocketMetricsGlobal::new();
    let mut metrics = WebSocketMetrics::new_with_global(
        "/ws/error_test".to_string(),
        "backend1".to_string(),
        &mut global,
    );

    assert_eq!(global.get_connection_errors(), 0);

    metrics.record_error(&mut global, "upgrade_failed");
    assert_eq!(global.get_connection_errors(), 1);

    metrics.record_error(&mut global, "backend_unreachable");
    assert_eq!(global.get_connection_errors(), 2);

    metrics.record_error(&mut global, "forwarding_error");
    assert_eq!(global.get_connection_errors(), 3);

    metrics.record_close(&mut global, "error");
    metrics.drop(&mut global);
}

#[test]
fn test_mixed_message_types() {
    let mut global = WebSocketMetricsGlobal::new();
    let mut metrics = WebSocketMetrics::new_with_global(
        "/ws/mixed_test".to_string(),
        "backend1".to_string(),
        &mut global,
    );

    metrics.record_message_sent(&mut global, "text", 100);
    metrics.record_message_sent(&mut global, "binary", 500);
    metrics.record_message_sent(&mut global, "ping", 0);
    metrics.record_message_sent(&mut global, "pong", 0);

    metrics.record_message_received(&mut global, "text", 200);
    metrics.record_message_received(&mut global, "binary", 300);
    metrics.record_message_received(&mut global, "ping", 0);
    metrics.record_message_received(&mut global, "pong", 0);

    assert_eq!(global.get_messages_sent(), 4);
    assert_eq!(global.get_messages_received(), 4);
    assert_eq!(global.get_bytes_sent(), 600);
    assert_eq!(global.get_bytes_received(), 500);

    metrics.record_close(&mut global, "normal");
    metrics.drop(&mut global);
}

#[test]
fn test_open_then_close_keeps_active_count() {
    let (mut metrics, mut global) = WebSocketMetrics::new("/ws".to_string(), "b".to_string());
    assert_eq!(global.get_active_connections(), 1);
    assert_eq!(global.get_connections_total(), 1);
    metrics.record_close(&mut global, "normal");
    assert_eq!(global.get_active_connections(), 0);
    assert_eq!(global.get_connections_total(), 1);
    metrics.drop(&mut global);
    assert_eq!(global.get_active_connections(), 0);
}

#[test]
fn test_drop_after_close_keeps_other_connections() {
    let mut global = WebSocketMetricsGlobal::new();
    let mut m1 = WebSocketMetrics::new_with_global("/a".to_string(), "b".to_string(), &mut global);
    let m2 = WebSocketMetrics::new_with_global("/b".to_string(), "b".to_string(), &mut global);
    m1.record_close(&mut global, "normal");
    assert_eq!(global.get_active_connections(), 1);
    m1.drop(&mut global);
    assert_eq!(global.get_active_connections(), 1);
    m2.drop(&mut global);
    assert_eq!(global.get_active_connections(), 0);
}
