use vstd::prelude::*;
use crate::adult::Adult;
use crate::bootstrapping_peer::BootstrappingPeer;
use crate::elders_info::GenesisPfxInfo;
use crate::joining_peer::JoiningPeer;
use crate::messages::RelocatePayload;
use crate::peer_map::ConnectionInfo;

verus! {

/// What a handler asks of the driver after processing one event: stay in the
/// current state or move to another one.
#[derive(Debug)]
pub enum Transition {
    /// Nothing to do.
    Stay,
    /// Become a joining peer, with these contacts.
    IntoJoining { conn_infos: Vec<ConnectionInfo>, relocate_payload: Option<RelocatePayload> },
    /// Become an adult member of the section described by the genesis info.
    IntoAdult { gen_pfx_info: GenesisPfxInfo },
    /// Go back to bootstrapping, with a fresh identity.
    Rebootstrap,
    /// Stop for good.
    Terminate,
}

/// The node's lifecycle state. The states share no storage: every transition
/// moves the outgoing state's fields into the incoming state's constructor.
#[derive(Debug)]
pub enum State {
    BootstrappingPeer(BootstrappingPeer),
    JoiningPeer(JoiningPeer),
    Adult(Adult),
    Terminated,
}

} // verus!
