//! Upstream URLs.
use vstd::prelude::*;
use vstd::string::*;
use crate::text::{concat2, concat3, dec, u64_to_decimal};

verus! {

/// The URL of `path` on the backend at `host` and `port`.
pub open spec fn route_url(host: Seq<char>, port: u16, path: Seq<char>) -> Seq<char> {
    host + ":"@ + dec(port as nat) + path
}

/// Joins a backend's host and port with a forwarded path.
pub fn format_route(host: &str, port: &u16, path: &str) -> (r: String)
    ensures
        r@ == route_url(host@, *port, path@),
{
    let p = u64_to_decimal(*port as u64);
    let r = concat3(host, ":", p.as_str());
    concat2(r.as_str(), path)
}

} // verus!
