//! WebSocket connection and message accounting.
//!
//! `WebSocketMetricsGlobal` holds the totals shared by all connections; each
//! connection holds a `WebSocketMetrics` handle and reports into the totals
//! it was opened against. Counters wrap around on overflow.
use vstd::prelude::*;
use vstd::wrapping::i64_specs;
use vstd::wrapping::u64_specs;

verus! {

/// Totals over all WebSocket connections.
#[derive(Debug)]
pub struct WebSocketMetricsGlobal {
    active_connections: i64,
    messages_sent: u64,
    messages_received: u64,
    bytes_sent: u64,
    bytes_received: u64,
    connections_total: u64,
    connection_errors: u64,
}

/// The counters of a `WebSocketMetricsGlobal`.
pub struct GlobalView {
    pub active_connections: i64,
    pub messages_sent: u64,
    pub messages_received: u64,
    pub bytes_sent: u64,
    pub bytes_received: u64,
    pub connections_total: u64,
    pub connection_errors: u64,
}

impl View for WebSocketMetricsGlobal {
    type V = GlobalView;

    closed spec fn view(&self) -> GlobalView {
        GlobalView {
            active_connections: self.active_connections,
            messages_sent: self.messages_sent,
            messages_received: self.messages_received,
            bytes_sent: self.bytes_sent,
            bytes_received: self.bytes_received,
            connections_total: self.connections_total,
            connection_errors: self.connection_errors,
        }
    }
}

/// All counters at zero.
pub open spec fn zero_counts() -> GlobalView {
    GlobalView {
        active_connections: 0,
        messages_sent: 0,
        messages_received: 0,
        bytes_sent: 0,
        bytes_received: 0,
        connections_total: 0,
        connection_errors: 0,
    }
}

/// The totals after a connection opens.
pub open spec fn opened(g: GlobalView) -> GlobalView {
    GlobalView {
        active_connections: i64_specs::wrapping_add(g.active_connections, 1),
        connections_total: u64_specs::wrapping_add(g.connections_total, 1),
        ..g
    }
}

/// The totals after a message of `size` bytes goes to a client.
pub open spec fn sent(g: GlobalView, size: u64) -> GlobalView {
    GlobalView {
        messages_sent: u64_specs::wrapping_add(g.messages_sent, 1),
        bytes_sent: u64_specs::wrapping_add(g.bytes_sent, size),
        ..g
    }
}

/// The totals after a message of `size` bytes comes from a client.
pub open spec fn received(g: GlobalView, size: u64) -> GlobalView {
    GlobalView {
        messages_received: u64_specs::wrapping_add(g.messages_received, 1),
        bytes_received: u64_specs::wrapping_add(g.bytes_received, size),
        ..g
    }
}

/// The totals after a connection error.
pub open spec fn errored(g: GlobalView) -> GlobalView {
    GlobalView { connection_errors: u64_specs::wrapping_add(g.connection_errors, 1), ..g }
}

/// The totals after a connection reports its close.
pub open spec fn closed(g: GlobalView) -> GlobalView {
    GlobalView { active_connections: i64_specs::wrapping_sub(g.active_connections, 1), ..g }
}

/// The totals after a connection handle is discarded: a connection that
/// was not explicitly closed stops being counted while the active count is
/// positive; the close of one that was has already been counted.
pub open spec fn discarded(g: GlobalView, was_closed: bool) -> GlobalView {
    if !was_closed && g.active_connections > 0 {
        GlobalView { active_connections: (g.active_connections - 1) as i64, ..g }
    } else {
        g
    }
}

impl WebSocketMetricsGlobal {
    /// Totals with every counter at zero.
    pub fn new() -> (r: Self)
        ensures
            r@ == zero_counts(),
    {
        WebSocketMetricsGlobal {
            active_connections: 0,
            messages_sent: 0,
            messages_received: 0,
            bytes_sent: 0,
            bytes_received: 0,
            connections_total: 0,
            connection_errors: 0,
        }
    }

    /// Connections open now.
    pub fn get_active_connections(&self) -> (r: i64)
        ensures
            r == self@.active_connections,
    {
        self.active_connections
    }

    /// Messages sent to clients.
    pub fn get_messages_sent(&self) -> (r: u64)
        ensures
            r == self@.messages_sent,
    {
        self.messages_sent
    }

    /// Messages received from clients.
    pub fn get_messages_received(&self) -> (r: u64)
        ensures
            r == self@.messages_received,
    {
        self.messages_received
    }

    /// Bytes sent to clients.
    pub fn get_bytes_sent(&self) -> (r: u64)
        ensures
            r == self@.bytes_sent,
    {
        self.bytes_sent
    }

    /// Bytes received from clients.
    pub fn get_bytes_received(&self) -> (r: u64)
        ensures
            r == self@.bytes_received,
    {
        self.bytes_received
    }

    /// Connections ever opened.
    pub fn get_connections_total(&self) -> (r: u64)
        ensures
            r == self@.connections_total,
    {
        self.connections_total
    }

    /// Connection errors recorded.
    pub fn get_connection_errors(&self) -> (r: u64)
        ensures
            r == self@.connection_errors,
    {
        self.connection_errors
    }
}

/// The accounting handle of one WebSocket connection.
#[derive(Debug)]
pub struct WebSocketMetrics {
    route: String,
    backend: String,
    closed: bool,
}

impl WebSocketMetrics {
    /// The route the connection came in on.
    pub closed spec fn spec_route(&self) -> Seq<char> {
        self.route@
    }

    /// The backend the connection goes to.
    pub closed spec fn spec_backend(&self) -> Seq<char> {
        self.backend@
    }

    /// Whether the close of the connection has been recorded.
    pub closed spec fn spec_closed(&self) -> bool {
        self.closed
    }

    /// Opens a connection against `global`: one more active and one more in total.
    pub fn new_with_global(route: String, backend: String, global: &mut WebSocketMetricsGlobal) -> (r:
        Self)
        ensures
            final(global)@ == opened(old(global)@),
            r.spec_route() == route@,
            r.spec_backend() == backend@,
            !r.spec_closed(),
    {
        global.active_connections = global.active_connections.wrapping_add(1);
        global.connections_total = global.connections_total.wrapping_add(1);
        WebSocketMetrics { route, backend, closed: false }
    }

    /// Opens a connection against totals of its own, which come back with it.
    pub fn new(route: String, backend: String) -> (r: (Self, WebSocketMetricsGlobal))
        ensures
            r.1@ == opened(zero_counts()),
            r.0.spec_route() == route@,
            r.0.spec_backend() == backend@,
            !r.0.spec_closed(),
    {
        let mut global = WebSocketMetricsGlobal::new();
        let metrics = Self::new_with_global(route, backend, &mut global);
        (metrics, global)
    }

    /// Counts a message of `size_bytes` sent to the client; the message type
    /// does not matter.
    pub fn record_message_sent(
        &self,
        global: &mut WebSocketMetricsGlobal,
        message_type: &str,
        size_bytes: usize,
    )
        ensures
            final(global)@ == sent(old(global)@, size_bytes as u64),
    {
        global.messages_sent = global.messages_sent.wrapping_add(1);
        global.bytes_sent = global.bytes_sent.wrapping_add(size_bytes as u64);
    }

    /// Counts a message of `size_bytes` received from the client; the message
    /// type does not matter.
    pub fn record_message_received(
        &self,
        global: &mut WebSocketMetricsGlobal,
        message_type: &str,
        size_bytes: usize,
    )
        ensures
            final(global)@ == received(old(global)@, size_bytes as u64),
    {
        global.messages_received = global.messages_received.wrapping_add(1);
        global.bytes_received = global.bytes_received.wrapping_add(size_bytes as u64);
    }

    /// Counts a connection error of any kind.
    pub fn record_error(&self, global: &mut WebSocketMetricsGlobal, error_type: &str)
        ensures
            final(global)@ == errored(old(global)@),
    {
        global.connection_errors = global.connection_errors.wrapping_add(1);
    }

    /// Accepts a ping round-trip time (the bits of an `f64` number of
    /// seconds); round-trip times are not tracked, so nothing changes.
    pub fn record_ping_rtt(&self, rtt_seconds_bits: u64) {
    }

    /// Records the close of the connection: one fewer active.
    pub fn record_close(&mut self, global: &mut WebSocketMetricsGlobal, close_reason: &str)
        ensures
            final(global)@ == closed(old(global)@),
            final(self).spec_closed(),
            final(self).spec_route() == old(self).spec_route(),
            final(self).spec_backend() == old(self).spec_backend(),
    {
        global.active_connections = global.active_connections.wrapping_sub(1);
        self.closed = true;
    }

    /// Discards the handle; a connection that was not explicitly closed stops
    /// being counted (while the active count is positive).
    pub fn drop(self, global: &mut WebSocketMetricsGlobal)
        ensures
            final(global)@ == discarded(old(global)@, self.spec_closed()),
    {
        if !self.closed && global.active_connections > 0 {
            global.active_connections = global.active_connections - 1;
        }
    }
}

/// A connection that opens and then closes leaves the active count as it
/// was and the total one higher, and discarding its handle afterwards
/// changes nothing more; a connection whose handle is discarded without a
/// close also leaves the active count as it was.
pub proof fn lemma_open_close_balances(g: GlobalView)
    requires
        0 <= g.active_connections < i64::MAX,
        g.connections_total < u64::MAX,
    ensures
        closed(opened(g)).active_connections == g.active_connections,
        closed(opened(g)).connections_total == g.connections_total + 1,
        discarded(closed(opened(g)), true) == closed(opened(g)),
        discarded(opened(g), false).active_connections == g.active_connections,
        discarded(opened(g), false).connections_total == g.connections_total + 1,
{
}

/// Message and byte totals grow by exactly what is reported, as long as they
/// stay below the word limit.
pub proof fn lemma_message_totals(g: GlobalView, a: u64, b: u64)
    requires
        g.messages_sent + 2 <= u64::MAX,
        g.bytes_sent + a + b <= u64::MAX,
    ensures
        sent(sent(g, a), b).messages_sent == g.messages_sent + 2,
        sent(sent(g, a), b).bytes_sent == g.bytes_sent + a + b,
        sent(sent(g, a), b).messages_received == g.messages_received,
{
}

} // verus!
