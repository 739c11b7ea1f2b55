//! Errors of request forwarding and the HTTP status each is answered with.
use vstd::prelude::*;

verus! {

/// Why a request could not be forwarded.
#[derive(Debug)]
pub enum GatewayError {
    /// No route serves the path.
    RouteNotFound { path: String },
    /// The route does not allow the method.
    MethodNotAllowed { method: String, path: String },
    /// The upstream service's circuit is open.
    CircuitOpen { service: String },
    /// The upstream did not answer within `timeout` seconds.
    Timeout { timeout: u64 },
    /// The upstream could not be reached or its answer could not be read.
    Upstream { message: String, url: String, status: Option<u16> },
    /// The configuration does not allow the request to be served.
    Config { message: String, route: String },
}

/// The HTTP status of each kind of error.
pub open spec fn error_status(e: GatewayError) -> u16 {
    match e {
        GatewayError::RouteNotFound { .. } => 404,
        GatewayError::MethodNotAllowed { .. } => 405,
        GatewayError::CircuitOpen { .. } => 503,
        GatewayError::Timeout { .. } => 504,
        GatewayError::Upstream { .. } => 502,
        GatewayError::Config { .. } => 502,
    }
}

impl GatewayError {
    /// The HTTP status a client receives for this error.
    pub fn status_code(&self) -> (r: u16)
        ensures
            r == error_status(*self),
    {
        match self {
            GatewayError::RouteNotFound { .. } => 404,
            GatewayError::MethodNotAllowed { .. } => 405,
            GatewayError::CircuitOpen { .. } => 503,
            GatewayError::Timeout { .. } => 504,
            GatewayError::Upstream { .. } => 502,
            GatewayError::Config { .. } => 502,
        }
    }
}

} // verus!
