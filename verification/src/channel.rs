//! What travels from the connecting side of a run to the dispatching side,
//! and how a task that was waited for has ended.

use crate::error::HostError;
use crate::server::{HostView, SessionInfo};
use vstd::prelude::*;

verus! {

/// How many slots the session channel holds before a sender has to wait.
pub const CHANNEL_CAPACITY: usize = 10;

/// A host together with the live, authenticated transport to it. `S` is the
/// transport; the one operation of the run on this host owns it.
pub struct ConnectedSession<S> {
    pub host: SessionInfo,
    pub transport: S,
}

/// One value in the session channel.
pub enum Slot<S> {
    /// A host that was connected to.
    Connected(ConnectedSession<S>),
    /// The marker behind the last connected host: no other will follow.
    EndOfConnections,
}

/// What the receiving side learns from one attempt to receive.
pub enum Arrival {
    /// A connected host arrived.
    Host(HostView),
    /// The end marker arrived.
    End,
    /// Nothing arrived: the channel is closed.
    Closed,
}

/// What one attempt to receive brought, without the transport.
pub open spec fn arrival_of<S>(received: Option<Slot<S>>) -> Arrival {
    match received {
        Some(Slot::Connected(session)) => Arrival::Host(session.host@),
        Some(Slot::EndOfConnections) => Arrival::End,
        None => Arrival::Closed,
    }
}

/// How a task that was waited for has ended.
#[derive(Debug)]
pub enum TaskEnd {
    /// The task did its work.
    Completed,
    /// The task's work failed for its host.
    Failed(HostError),
    /// The task itself was lost: it was not run to its end.
    Lost(String),
}

} // verus!
