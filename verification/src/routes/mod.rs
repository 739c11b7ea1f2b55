//! The gateway's endpoint logic: request accounting and its exposition, and
//! the management API.

pub mod dns;
pub mod ftp;
pub mod management;
pub mod metrics;
pub mod websocket;
