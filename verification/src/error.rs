use vstd::prelude::*;

verus! {

/// Errors surfaced by the routing core.
#[derive(Clone, Copy, PartialEq, Eq, Structural, Debug)]
pub enum RoutingError {
    /// A signed message failed verification; the message is dropped.
    FailedSignature,
}

/// Errors surfaced to the embedding application's command interface.
#[derive(Clone, Copy, PartialEq, Eq, Structural, Debug)]
pub enum InterfaceError {
    /// The node is in a state that cannot serve the request.
    InvalidState,
}

} // verus!
