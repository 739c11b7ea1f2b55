//! WebSocket proxying: the backend URL, and what each relayed frame does.
//!
//! The caller upgrades the client connection, connects to the backend, and
//! pumps frames both ways; for each frame it asks `relay_frame` what to do,
//! and it reports send failures and backend errors with `relay_failed`.
use vstd::prelude::*;
use vstd::string::*;
use crate::services::websocket_metrics::{
    GlobalView, WebSocketMetrics, WebSocketMetricsGlobal, closed, errored, received, sent,
};
use crate::text::{concat5, dec, owned, starts_with, str_starts_with, u64_to_decimal};

verus! {

/// `s` without a leading `p`, when it has one.
pub open spec fn trim_prefix(s: Seq<char>, p: Seq<char>) -> Seq<char> {
    if starts_with(s, p) {
        s.subrange(p.len() as int, s.len() as int)
    } else {
        s
    }
}

/// `s` with every leading copy of `p` removed, as `trim_start_matches` does.
pub open spec fn trim_all(s: Seq<char>, p: Seq<char>) -> Seq<char>
    decreases s.len(),
{
    if p.len() > 0 && starts_with(s, p) {
        trim_all(s.subrange(p.len() as int, s.len() as int), p)
    } else {
        s
    }
}

/// A host without its `https://`, `http://`, `wss://` and `ws://` prefixes,
/// trimmed in that order.
pub open spec fn bare_host(host: Seq<char>) -> Seq<char> {
    trim_all(trim_all(trim_all(trim_all(host, "https://"@), "http://"@), "wss://"@), "ws://"@)
}

/// The WebSocket URL of `path` on a backend: `wss://` for secure hosts,
/// `ws://` otherwise.
pub open spec fn ws_url(host: Seq<char>, port: u16, path: Seq<char>) -> Seq<char> {
    let scheme = if starts_with(host, "https://"@) || starts_with(host, "wss://"@) {
        "wss://"@
    } else {
        "ws://"@
    };
    scheme + bare_host(host) + ":"@ + dec(port as nat) + path
}

fn trim_start_matches(s: &str, p: &str) -> (r: String)
    requires
        p@.len() > 0,
    ensures
        r@ == trim_all(s@, p@),
{
    let mut cur = owned(s);
    let n = p.unicode_len();
    while str_starts_with(cur.as_str(), p)
        invariant
            n == p@.len(),
            n > 0,
            trim_all(cur@, p@) == trim_all(s@, p@),
        decreases cur@.len(),
    {
        let len = cur.unicode_len();
        let rest = cur.as_str().substring_char(n, len);
        cur = owned(rest);
    }
    cur
}

/// The WebSocket proxy.
#[derive(Debug)]
pub struct WebSocketHandler {
    timeout_seconds: u64,
}

impl Clone for WebSocketHandler {
    fn clone(&self) -> (r: Self)
        ensures
            r.spec_timeout() == self.spec_timeout(),
    {
        WebSocketHandler { timeout_seconds: self.timeout_seconds }
    }
}

impl WebSocketHandler {
    /// The operation timeout in seconds.
    pub closed spec fn spec_timeout(&self) -> u64 {
        self.timeout_seconds
    }

    /// A proxy with the given operation timeout.
    pub fn new(timeout_seconds: u64) -> (r: Self)
        ensures
            r.spec_timeout() == timeout_seconds,
    {
        WebSocketHandler { timeout_seconds }
    }

    /// The operation timeout in seconds.
    pub fn timeout_seconds(&self) -> (r: u64)
        ensures
            r == self.spec_timeout(),
    {
        self.timeout_seconds
    }

    /// The backend URL for a connection to `path` on `host` and `port`.
    pub fn build_backend_url(&self, host: &str, port: u16, path: &str) -> (r: Result<String, String>)
        ensures
            r matches Ok(u) && u@ == ws_url(host@, port, path@),
    {
        proof {
            reveal_strlit("https://");
            reveal_strlit("http://");
            reveal_strlit("wss://");
            reveal_strlit("ws://");
        }
        let scheme = if str_starts_with(host, "https://") || str_starts_with(host, "wss://") {
            "wss://"
        } else {
            "ws://"
        };
        let a = trim_start_matches(host, "https://");
        let b = trim_start_matches(a.as_str(), "http://");
        let c = trim_start_matches(b.as_str(), "wss://");
        let d = trim_start_matches(c.as_str(), "ws://");
        let p = u64_to_decimal(port as u64);
        Ok(concat5(scheme, d.as_str(), ":", p.as_str(), path))
    }
}

/// The kind of a WebSocket frame.
#[derive(PartialEq, Eq, Structural, Clone, Copy, Debug)]
pub enum FrameKind {
    Text,
    Binary,
    Ping,
    Pong,
    Close,
    Other,
}

/// Which way a frame travels.
#[derive(PartialEq, Eq, Structural, Clone, Copy, Debug)]
pub enum Direction {
    /// From the client to the backend.
    ClientToBackend,
    /// From the backend to the client.
    BackendToClient,
}

/// What to do with a frame.
#[derive(PartialEq, Eq, Structural, Clone, Copy, Debug)]
pub enum RelayStep {
    /// Pass it on.
    Forward,
    /// Close the other side and stop relaying this way.
    Close,
    /// Ignore it.
    Skip,
}

/// The step for a frame of `kind`.
pub open spec fn relay_step(kind: FrameKind) -> RelayStep {
    match kind {
        FrameKind::Close => RelayStep::Close,
        FrameKind::Other => RelayStep::Skip,
        _ => RelayStep::Forward,
    }
}

/// The totals after a frame of `kind` and `size` bytes: data and control
/// frames count as received (from the client) or sent (to the client); a
/// close frame counts as the close of the connection.
pub open spec fn relay_counts(g: GlobalView, dir: Direction, kind: FrameKind, size: u64) -> GlobalView {
    match kind {
        FrameKind::Close => closed(g),
        FrameKind::Other => g,
        _ => match dir {
            Direction::ClientToBackend => received(g, size),
            Direction::BackendToClient => sent(g, size),
        },
    }
}

/// Decides a relayed frame and counts it.
pub fn relay_frame(
    metrics: &mut WebSocketMetrics,
    global: &mut WebSocketMetricsGlobal,
    dir: Direction,
    kind: FrameKind,
    size: usize,
    close_reason: &str,
) -> (r: RelayStep)
    ensures
        r == relay_step(kind),
        final(global)@ == relay_counts(old(global)@, dir, kind, size as u64),
        final(metrics).spec_closed() == (old(metrics).spec_closed() || kind == FrameKind::Close),
        final(metrics).spec_route() == old(metrics).spec_route(),
        final(metrics).spec_backend() == old(metrics).spec_backend(),
{
    match kind {
        FrameKind::Close => {
            metrics.record_close(global, close_reason);
            RelayStep::Close
        },
        FrameKind::Other => RelayStep::Skip,
        _ => {
            let label = match kind {
                FrameKind::Text => "text",
                FrameKind::Binary => "binary",
                FrameKind::Ping => "ping",
                _ => "pong",
            };
            match dir {
                Direction::ClientToBackend => metrics.record_message_received(global, label, size),
                Direction::BackendToClient => metrics.record_message_sent(global, label, size),
            }
            RelayStep::Forward
        },
    }
}

/// Counts a relay that failed (`forwarding_error`, `backend_error`, ...):
/// an error, then the close of the connection.
pub fn relay_failed(metrics: &mut WebSocketMetrics, global: &mut WebSocketMetricsGlobal, reason: &str)
    ensures
        final(global)@ == closed(errored(old(global)@)),
        final(metrics).spec_closed(),
        final(metrics).spec_route() == old(metrics).spec_route(),
        final(metrics).spec_backend() == old(metrics).spec_backend(),
{
    metrics.record_error(global, reason);
    metrics.record_close(global, reason);
}

/// The description of a close: the given one, or `normal`.
pub fn close_description(reason: Option<&str>) -> (r: String)
    ensures
        r@ == match reason {
            Some(d) => d@,
            None => "normal"@,
        },
{
    match reason {
        Some(d) => owned(d),
        None => owned("normal"),
    }
}

/// The close code passed to the client for a backend close code: the
/// standard codes pass as they are, any other becomes 1011 (internal error).
pub open spec fn relayed_close_code(code: u16) -> u16 {
    if code == 1000 || code == 1001 || code == 1002 || code == 1003 || code == 1006 || code == 1007
        || code == 1008 || code == 1009 || code == 1010 || code == 1011 || code == 1012 || code
        == 1013 {
        code
    } else {
        1011
    }
}

/// The close code passed to the client for a backend close code.
pub fn map_close_code(code: u16) -> (r: u16)
    ensures
        r == relayed_close_code(code),
{
    if code == 1000 || code == 1001 || code == 1002 || code == 1003 || code == 1006 || code == 1007
        || code == 1008 || code == 1009 || code == 1010 || code == 1011 || code == 1012 || code
        == 1013 {
        code
    } else {
        1011
    }
}

} // verus!
