//! The metrics WebSocket endpoints: what each event of a connection leads to.
//!
//! The caller runs the connection: it reads client messages (parsing
//! subscription updates itself), ticks the update timer, and performs the
//! actions returned here; a send that fails ends the connection.
use vstd::prelude::*;
use vstd::string::*;
use crate::text::{clone_strings, concat2, strs_view};

verus! {

/// A client's metrics subscription.
#[derive(Debug)]
pub struct MetricsSubscription {
    pub metrics: Vec<String>,
    pub interval_seconds: u64,
    pub include_history: bool,
}

/// The update interval, in seconds, when a subscription names none.
pub fn default_interval() -> (r: u64)
    ensures
        r == 1,
{
    1
}

/// Something that happened on a metrics connection.
#[derive(Debug)]
pub enum SocketEvent {
    /// The client sent a subscription update: parsed, or the parse error.
    Subscription(Result<MetricsSubscription, String>),
    /// The client pinged.
    Ping,
    /// The client closed the connection.
    Close,
    /// Reading from the client failed, or the stream ended.
    Failed,
    /// Any other client message.
    Other,
    /// The update timer fired.
    Tick,
}

/// What to do on a metrics connection.
#[derive(Debug)]
pub enum SocketAction {
    /// Send a metrics snapshot.
    SendSnapshot,
    /// Restart the update timer with this period in seconds.
    SetInterval(u64),
    /// Send the last hour of these metrics (all metrics when none are named).
    SendHistory(Vec<String>),
    /// Send an error event with this message.
    SendError(String),
    /// Answer the ping.
    Pong,
    /// Close the connection and stop.
    CloseAndStop,
    /// Stop.
    Stop,
}

/// The subscription a connection starts with: no metrics named, updates
/// every second, no history.
pub open spec fn initial_subscription(s: MetricsSubscription) -> bool {
    s.metrics@.len() == 0 && s.interval_seconds == 1 && !s.include_history
}

/// The state of one metrics connection.
#[derive(Debug)]
pub struct MetricsSocket {
    subscription: MetricsSubscription,
}

impl MetricsSocket {
    /// The subscription in force.
    pub closed spec fn spec_subscription(&self) -> MetricsSubscription {
        self.subscription
    }

    /// A new connection, which starts by sending a snapshot on the initial
    /// subscription's timer.
    pub fn new() -> (r: (Self, Vec<SocketAction>))
        ensures
            initial_subscription(r.0.spec_subscription()),
            r.1@.len() == 2,
            r.1@[0] matches SocketAction::SetInterval(s) && s == 1,
            r.1@[1] is SendSnapshot,
    {
        let subscription = MetricsSubscription {
            metrics: Vec::new(),
            interval_seconds: 1,
            include_history: false,
        };
        let mut actions: Vec<SocketAction> = Vec::new();
        actions.push(SocketAction::SetInterval(1));
        actions.push(SocketAction::SendSnapshot);
        (MetricsSocket { subscription }, actions)
    }

    /// The actions an event leads to. A valid subscription update replaces
    /// the subscription, restarts the timer with its interval, and asks for
    /// history when it wants it; an invalid one is answered with an error.
    /// Pings are answered, a close or a failure ends the connection, and a
    /// timer tick sends a snapshot.
    pub fn on_event(&mut self, event: SocketEvent) -> (r: Vec<SocketAction>)
        ensures
            match event {
                SocketEvent::Subscription(Ok(s)) => final(self).spec_subscription() == s && (if s.include_history {
                    r@.len() == 2 && r@[0] == SocketAction::SetInterval(s.interval_seconds)
                        && r@[1] is SendHistory && strs_view(r@[1]->SendHistory_0@) == strs_view(
                        s.metrics@,
                    )
                } else {
                    r@.len() == 1 && r@[0] == SocketAction::SetInterval(s.interval_seconds)
                }),
                SocketEvent::Subscription(Err(e)) => final(self).spec_subscription() == old(self).spec_subscription() && r@.len() == 1 && r@[0] is SendError
                    && r@[0]->SendError_0@ == "Invalid subscription: "@ + e@,
                SocketEvent::Ping => *final(self) == *old(self) && r@.len() == 1 && r@[0] is Pong,
                SocketEvent::Close => *final(self) == *old(self) && r@.len() == 1 && r@[0] is CloseAndStop,
                SocketEvent::Failed => *final(self) == *old(self) && r@.len() == 1 && r@[0] is Stop,
                SocketEvent::Other => *final(self) == *old(self) && r@.len() == 0,
                SocketEvent::Tick => *final(self) == *old(self) && r@.len() == 1 && r@[0] is SendSnapshot,
            },
    {
        let mut actions: Vec<SocketAction> = Vec::new();
        match event {
            SocketEvent::Subscription(Ok(s)) => {
                actions.push(SocketAction::SetInterval(s.interval_seconds));
                if s.include_history {
                    actions.push(SocketAction::SendHistory(clone_strings(&s.metrics)));
                }
                self.subscription = s;
            },
            SocketEvent::Subscription(Err(e)) => {
                actions.push(SocketAction::SendError(concat2("Invalid subscription: ", e.as_str())));
            },
            SocketEvent::Ping => actions.push(SocketAction::Pong),
            SocketEvent::Close => actions.push(SocketAction::CloseAndStop),
            SocketEvent::Failed => actions.push(SocketAction::Stop),
            SocketEvent::Other => {},
            SocketEvent::Tick => actions.push(SocketAction::SendSnapshot),
        }
        actions
    }
}

/// The action of the admin metrics connection on an event: snapshots every
/// tick, pings answered, and the connection ended by a close, a failure or
/// the end of the stream; other messages are ignored (`None`).
pub fn admin_socket_step(event: &SocketEvent) -> (r: Option<SocketAction>)
    ensures
        match event {
            SocketEvent::Tick => r matches Some(SocketAction::SendSnapshot),
            SocketEvent::Ping => r matches Some(SocketAction::Pong),
            SocketEvent::Close => r matches Some(SocketAction::CloseAndStop),
            SocketEvent::Failed => r matches Some(SocketAction::Stop),
            _ => r is None,
        },
{
    match event {
        SocketEvent::Tick => Some(SocketAction::SendSnapshot),
        SocketEvent::Ping => Some(SocketAction::Pong),
        SocketEvent::Close => Some(SocketAction::CloseAndStop),
        SocketEvent::Failed => Some(SocketAction::Stop),
        _ => None,
    }
}

} // verus!
