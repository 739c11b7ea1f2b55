//! The WebSocket proxy: construction, backend URLs and frame relaying.

use kairos_rs::services::websocket::{
    close_description, map_close_code, relay_failed, relay_frame, Direction, FrameKind, RelayStep,
    WebSocketHandler,
};
use kairos_rs::services::websocket_metrics::{WebSocketMetrics, WebSocketMetricsGlobal};

#[test]
fn test_websocket_handler_creation() {
    let _handler = WebSocketHandler::new(30);
    assert!(true);
}

#[test]
fn test_websocket_handler_with_different_timeouts() {
    let _handler1 = WebSocketHandler::new(30);
    let _handler2 = WebSocketHandler::new(60);
    let _handler3 = WebSocketHandler::new(0);
    assert!(true);
}

#[test]
fn test_websocket_handler_clone() {
    let handler = WebSocketHandler::new(30);
    let cloned = handler.clone();
    assert_eq!(cloned.timeout_seconds(), 30);
}

#[test]
fn test_websocket_handler_multiple_instances() {
    let handler1 = WebSocketHandler::new(30);
    let handler2 = WebSocketHandler::new(60);
    assert_eq!(handler1.timeout_seconds(), 30);
    assert_eq!(handler2.timeout_seconds(), 60);
}

#[test]
fn test_default_timeout() {
    let _handler = WebSocketHandler::new(30);
    assert!(true);
}

#[test]
fn test_large_timeout() {
    let _handler = WebSocketHandler::new(3600);
    assert!(true);
}

#[test]
fn websocket_tests_test_handler_lifecycle() {
    let handler = WebSocketHandler::new(30);
    let cloned = handler.clone();
    drop(handler);
    drop(cloned);
    assert!(true);
}

#[test]
fn test_backend_url_schemes() {
    let handler = WebSocketHandler::new(30);
    assert_eq!(
        handler.build_backend_url("http://localhost", 8080, "/ws/chat"),
        Ok("ws://localhost:8080/ws/chat".to_string())
    );
    assert_eq!(
        handler.build_backend_url("https://secure.example", 443, "/ws"),
        Ok("wss://secure.example:443/ws".to_string())
    );
    assert_eq!(
        handler.build_backend_url("wss://echo", 9000, ""),
        Ok("wss://echo:9000".to_string())
    );
    assert_eq!(handler.build_backend_url("plain", 1, "/x"), Ok("ws://plain:1/x".to_string()));
}

#[test]
fn test_relay_frame_counts() {
    let mut global = WebSocketMetricsGlobal::new();
    let mut m = WebSocketMetrics::new_with_global("/ws".to_string(), "b".to_string(), &mut global);

    let step = relay_frame(&mut m, &mut global, Direction::ClientToBackend, FrameKind::Text, 12, "");
    assert_eq!(step, RelayStep::Forward);
    let step = relay_frame(&mut m, &mut global, Direction::BackendToClient, FrameKind::Binary, 30, "");
    assert_eq!(step, RelayStep::Forward);
    let step = relay_frame(&mut m, &mut global, Direction::BackendToClient, FrameKind::Other, 99, "");
    assert_eq!(step, RelayStep::Skip);
    assert_eq!(global.get_messages_received(), 1);
    assert_eq!(global.get_bytes_received(), 12);
    assert_eq!(global.get_messages_sent(), 1);
    assert_eq!(global.get_bytes_sent(), 30);

    let step =
        relay_frame(&mut m, &mut global, Direction::ClientToBackend, FrameKind::Close, 0, "normal");
    assert_eq!(step, RelayStep::Close);
    assert_eq!(global.get_active_connections(), 0);
    m.drop(&mut global);
}

#[test]
fn test_relay_failure_counts_error_and_close() {
    let mut global = WebSocketMetricsGlobal::new();
    let mut m = WebSocketMetrics::new_with_global("/ws".to_string(), "b".to_string(), &mut global);
    relay_failed(&mut m, &mut global, "forwarding_error");
    assert_eq!(global.get_connection_errors(), 1);
    assert_eq!(global.get_active_connections(), 0);
    m.drop(&mut global);
}

#[test]
fn test_close_codes_and_descriptions() {
    assert_eq!(map_close_code(1000), 1000);
    assert_eq!(map_close_code(1013), 1013);
    assert_eq!(map_close_code(1005), 1011);
    assert_eq!(map_close_code(4000), 1011);
    assert_eq!(close_description(Some("bye")), "bye");
    assert_eq!(close_description(None), "normal");
}
