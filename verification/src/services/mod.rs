//! Gateway services: backend selection, failure isolation, request
//! forwarding decisions and connection accounting.

pub mod ai;
pub mod circuit_breaker;
pub mod dns;
pub mod ftp;
pub mod http;
pub mod load_balancer;
pub mod metrics_store;
pub mod websocket;
pub mod websocket_metrics;
