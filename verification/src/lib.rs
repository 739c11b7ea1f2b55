//! Verified core of the kairos-rs API gateway: configuration models and
//! their validation, load balancing, circuit breaking, rate limiting,
//! request transformation and metrics accounting.

pub mod text;
pub mod keyed;
pub mod headers;
pub mod patterns;
pub mod encoding;
pub mod middleware;
pub mod models;
pub mod config;
pub mod services;
pub mod routes;
pub mod utils;
pub mod client;
