use vstd::prelude::*;
use crate::messages::DirectMessage;
use crate::peer_map::{ConnectionInfo, PeerAddr};
use crate::xor_name::XorName;

verus! {

/// Externally observable lifecycle events, surfaced to the embedding
/// application.
#[derive(Clone, Copy, PartialEq, Eq, Structural, Debug)]
pub enum Event {
    /// The node gave up and stopped.
    Terminated,
    /// The node established its place in the overlay.
    Connected,
    /// A known node disappeared.
    NodeLost(XorName),
}

/// One outbound instruction the lifecycle asks its driver to perform: the
/// lifecycle itself does no I/O.
#[derive(Debug, PartialEq, Eq)]
pub enum Action {
    /// Start the link layer's multi-target bootstrap probe.
    Bootstrap,
    /// Open a connection to the peer.
    ConnectTo(ConnectionInfo),
    /// Drop the connection to the address.
    DisconnectFrom(PeerAddr),
    /// Send a direct message to the connected peer.
    SendDirect { to: ConnectionInfo, msg: DirectMessage },
    /// Surface a lifecycle event to the embedding application.
    Emit(Event),
}

} // verus!
