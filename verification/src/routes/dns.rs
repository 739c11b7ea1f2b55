//! The DNS endpoints' bodies: hex-encoded queries in, hex-encoded answers out.
use vstd::prelude::*;
use vstd::string::*;
use crate::encoding::{hex_bytes, hex_decode, hex_encode, hex_error_text, hex_text};
use crate::services::dns::DnsHandler;
use crate::text::{concat2, owned};

verus! {

/// A DNS query, its wire bytes in hex.
#[derive(Debug)]
pub struct DnsQueryRequest {
    pub query: String,
}

/// A DNS answer, its wire bytes in hex.
#[derive(Debug)]
pub struct DnsQueryResponse {
    pub response: String,
    pub cached: bool,
}

/// The size of the DNS cache.
#[derive(Debug)]
pub struct DnsCacheStats {
    pub size: usize,
}

/// The wire bytes of a query, or the reason its hex is refused (answered
/// with 400).
pub fn query_bytes(request: &DnsQueryRequest) -> (r: Result<Vec<u8>, String>)
    ensures
        match hex_bytes(vstd::utf8::encode_utf8(request.query@)) {
            Some(b) => r matches Ok(v) && v@ == b,
            None => r matches Err(e) && e@ == "Invalid hex query: "@ + hex_error_text(
                request.query@,
            ),
        },
{
    match hex_decode(request.query.as_str()) {
        Ok(v) => Ok(v),
        Err(e) => Err(concat2("Invalid hex query: ", e.as_str())),
    }
}

/// The answer body for response bytes.
pub fn query_response(response: &Vec<u8>) -> (r: DnsQueryResponse)
    ensures
        r.response@ == hex_text(response@),
        !r.cached,
{
    DnsQueryResponse { response: hex_encode(response.as_slice()), cached: false }
}

/// The cache statistics body.
pub fn cache_stats(handler: &DnsHandler) -> (r: DnsCacheStats)
    ensures
        r.size == handler.spec_cache().len(),
{
    DnsCacheStats { size: handler.cache_size() }
}

} // verus!
