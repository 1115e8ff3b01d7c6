use vstd::prelude::*;
use crate::elders_info::{elders_info_eq, EldersInfo, EldersInfoView, SectionKeyInfo};
use crate::error::RoutingError;
use crate::id::{BlsPublicKeyShare, FullId, PublicId, Signature};
use crate::messages::RelocateDetails;
use crate::proof_set::Proof;
use crate::routing_table::Prefix;
use crate::vec_util::{bytes_eq, clone_copy_vec};

verus! {

/// Our acknowledgement of a remote section's snapshot: the prefix of our
/// section at that moment and the acknowledged version.
#[derive(Clone, Copy, PartialEq, Eq, Structural, PartialOrd, Ord, Hash, Debug)]
pub struct AckMessagePayload {
    /// The prefix of our section when we acknowledge their snapshot.
    pub src_prefix: Prefix,
    /// The version acknowledged.
    pub ack_version: u64,
}

/// Agreement to send an acknowledgement to a remote section.
#[derive(Clone, Copy, PartialEq, Eq, Structural, PartialOrd, Ord, Hash, Debug)]
pub struct SendAckMessagePayload {
    /// The prefix acknowledged.
    pub ack_prefix: Prefix,
    /// The version acknowledged.
    pub ack_version: u64,
}

/// One participant's share of the section's threshold signature over a
/// section snapshot.
#[derive(Clone, Copy, PartialEq, Eq, Structural, PartialOrd, Ord, Hash, Debug)]
pub struct SectionInfoSigPayload {
    /// The public key share for that signature share.
    pub pub_key_share: BlsPublicKeyShare,
    /// The signature share signing the section snapshot.
    pub sig_share: Signature,
}

impl SectionInfoSigPayload {
    /// Produce our share over the given snapshot.
    pub fn new(info: &EldersInfo, full_id: &FullId) -> (r: Result<
        SectionInfoSigPayload,
        RoutingError,
    >)
        ensures
            r matches Ok(p) && p == (SectionInfoSigPayload {
                pub_key_share: BlsPublicKeyShare(full_id.public_id),
                sig_share: Signature {
                    signer: full_id.public_id.0,
                    over: crate::elders_info::spec_info_tag(info@),
                },
            }),
    {
        let proof = match Proof::new(full_id, info) {
            Ok(p) => p,
            Err(e) => {
                return Err(e);
            },
        };
        Ok(SectionInfoSigPayload {
            pub_key_share: BlsPublicKeyShare(proof.pub_id),
            sig_share: proof.sig,
        })
    }
}

/// Agreement that a node is online, together with its age.
#[derive(Clone, Copy, PartialEq, Eq, Structural, PartialOrd, Ord, Hash, Debug)]
pub struct OnlinePayload {
    pub pub_id: PublicId,
    pub age: u8,
}

/// A fixed-width digest identifying a neighbour section's merged state.
#[derive(Clone, Copy, PartialEq, Eq, Structural, PartialOrd, Ord, Hash, Debug)]
pub struct Digest(pub u64);

/// Every observable agreement the overlay can reach.
#[derive(Debug, PartialEq, Eq)]
pub enum AccumulatingEvent {
    /// Add a new elder once we agreed to add a candidate.
    AddElder(PublicId),
    /// Remove an elder once we agreed to remove the peer.
    RemoveElder(PublicId),
    /// Voted for a node that is about to join our section.
    Online(OnlinePayload),
    /// Voted for a node we no longer consider online.
    Offline(PublicId),
    /// Our own section takes part in a merge.
    OurMerge,
    /// A neighbour section merged; the digest names its merged state.
    NeighbourMerge(Digest),
    /// Authoritative new composition of a section.
    SectionInfo(EldersInfo),
    /// A remote section's key to store in our trust table.
    TheirKeyInfo(SectionKeyInfo),
    /// Voted for a received acknowledgement, to update what they know of us.
    AckMessage(AckMessagePayload),
    /// Voted for sending an acknowledgement; requires unanimous agreement.
    SendAckMessage(SendAckMessagePayload),
    /// Prune the consensus engine's gossip graph.
    ParsecPrune,
    /// Voted for a node to be relocated out of our section.
    Relocate(RelocateDetails),
    /// Opaque caller-defined payload.
    User(Vec<u8>),
}

/// The mathematical value of an [`AccumulatingEvent`].
pub enum AccumulatingEventView {
    AddElder(PublicId),
    RemoveElder(PublicId),
    Online(OnlinePayload),
    Offline(PublicId),
    OurMerge,
    NeighbourMerge(Digest),
    SectionInfo(EldersInfoView),
    TheirKeyInfo(SectionKeyInfo),
    AckMessage(AckMessagePayload),
    SendAckMessage(SendAckMessagePayload),
    ParsecPrune,
    Relocate(RelocateDetails),
    User(Seq<u8>),
}

impl View for AccumulatingEvent {
    type V = AccumulatingEventView;

    open spec fn view(&self) -> AccumulatingEventView {
        match self {
            AccumulatingEvent::AddElder(id) => AccumulatingEventView::AddElder(*id),
            AccumulatingEvent::RemoveElder(id) => AccumulatingEventView::RemoveElder(*id),
            AccumulatingEvent::Online(p) => AccumulatingEventView::Online(*p),
            AccumulatingEvent::Offline(id) => AccumulatingEventView::Offline(*id),
            AccumulatingEvent::OurMerge => AccumulatingEventView::OurMerge,
            AccumulatingEvent::NeighbourMerge(d) => AccumulatingEventView::NeighbourMerge(*d),
            AccumulatingEvent::SectionInfo(info) => AccumulatingEventView::SectionInfo(info@),
            AccumulatingEvent::TheirKeyInfo(k) => AccumulatingEventView::TheirKeyInfo(*k),
            AccumulatingEvent::AckMessage(p) => AccumulatingEventView::AckMessage(*p),
            AccumulatingEvent::SendAckMessage(p) => AccumulatingEventView::SendAckMessage(*p),
            AccumulatingEvent::ParsecPrune => AccumulatingEventView::ParsecPrune,
            AccumulatingEvent::Relocate(d) => AccumulatingEventView::Relocate(*d),
            AccumulatingEvent::User(bytes) => AccumulatingEventView::User(bytes@),
        }
    }
}

impl Clone for AccumulatingEvent {
    fn clone(&self) -> (r: Self)
        ensures
            r@ == self@,
    {
        match self {
            AccumulatingEvent::AddElder(id) => AccumulatingEvent::AddElder(*id),
            AccumulatingEvent::RemoveElder(id) => AccumulatingEvent::RemoveElder(*id),
            AccumulatingEvent::Online(p) => AccumulatingEvent::Online(*p),
            AccumulatingEvent::Offline(id) => AccumulatingEvent::Offline(*id),
            AccumulatingEvent::OurMerge => AccumulatingEvent::OurMerge,
            AccumulatingEvent::NeighbourMerge(d) => AccumulatingEvent::NeighbourMerge(*d),
            AccumulatingEvent::SectionInfo(info) => AccumulatingEvent::SectionInfo(info.clone()),
            AccumulatingEvent::TheirKeyInfo(k) => AccumulatingEvent::TheirKeyInfo(*k),
            AccumulatingEvent::AckMessage(p) => AccumulatingEvent::AckMessage(*p),
            AccumulatingEvent::SendAckMessage(p) => AccumulatingEvent::SendAckMessage(*p),
            AccumulatingEvent::ParsecPrune => AccumulatingEvent::ParsecPrune,
            AccumulatingEvent::Relocate(d) => AccumulatingEvent::Relocate(*d),
            AccumulatingEvent::User(bytes) => AccumulatingEvent::User(clone_copy_vec(bytes)),
        }
    }
}

/// Whether two agreements are the same agreement.
pub fn event_eq(a: &AccumulatingEvent, b: &AccumulatingEvent) -> (r: bool)
    ensures
        r == (a@ == b@),
{
    match (a, b) {
        (AccumulatingEvent::AddElder(x), AccumulatingEvent::AddElder(y)) => x == y,
        (AccumulatingEvent::RemoveElder(x), AccumulatingEvent::RemoveElder(y)) => x == y,
        (AccumulatingEvent::Online(x), AccumulatingEvent::Online(y)) => x == y,
        (AccumulatingEvent::Offline(x), AccumulatingEvent::Offline(y)) => x == y,
        (AccumulatingEvent::OurMerge, AccumulatingEvent::OurMerge) => true,
        (AccumulatingEvent::NeighbourMerge(x), AccumulatingEvent::NeighbourMerge(y)) => x == y,
        (AccumulatingEvent::SectionInfo(x), AccumulatingEvent::SectionInfo(y)) => elders_info_eq(
            x,
            y,
        ),
        (AccumulatingEvent::TheirKeyInfo(x), AccumulatingEvent::TheirKeyInfo(y)) => x == y,
        (AccumulatingEvent::AckMessage(x), AccumulatingEvent::AckMessage(y)) => x == y,
        (AccumulatingEvent::SendAckMessage(x), AccumulatingEvent::SendAckMessage(y)) => x == y,
        (AccumulatingEvent::ParsecPrune, AccumulatingEvent::ParsecPrune) => true,
        (AccumulatingEvent::Relocate(x), AccumulatingEvent::Relocate(y)) => x == y,
        (AccumulatingEvent::User(x), AccumulatingEvent::User(y)) => bytes_eq(x, y),
        _ => false,
    }
}

impl AccumulatingEvent {
    /// Split an attributed event back into payload and signature share.
    pub fn from_network_event(event: NetworkEvent) -> (r: (
        AccumulatingEvent,
        Option<SectionInfoSigPayload>,
    ))
        ensures
            r.0@ == event@.payload,
            r.1 == event@.signature,
    {
        (event.payload, event.signature)
    }

    /// Wrap the event without a signature share.
    pub fn into_network_event(self) -> (r: NetworkEvent)
        ensures
            r@ == (NetworkEventView { payload: self@, signature: None }),
    {
        NetworkEvent { payload: self, signature: None }
    }

    /// Wrap the event together with an optional signature share.
    pub fn into_network_event_with(self, signature: Option<SectionInfoSigPayload>) -> (r:
        NetworkEvent)
        ensures
            r@ == (NetworkEventView { payload: self@, signature }),
    {
        NetworkEvent { payload: self, signature }
    }

    /// The section snapshot, if this is a section-info agreement.
    pub fn elders_info(&self) -> (r: Option<&EldersInfo>)
        ensures
            match r {
                Some(info) => self@ == AccumulatingEventView::SectionInfo(info@),
                None => !(self@ is SectionInfo),
            },
    {
        match self {
            AccumulatingEvent::SectionInfo(info) => Some(info),
            _ => None,
        }
    }
}

/// An agreement payload together with the signature share that events
/// advancing inter-section trust must carry.
#[derive(Debug, PartialEq, Eq)]
pub struct NetworkEvent {
    pub payload: AccumulatingEvent,
    pub signature: Option<SectionInfoSigPayload>,
}

/// The mathematical value of a [`NetworkEvent`].
pub struct NetworkEventView {
    pub payload: AccumulatingEventView,
    pub signature: Option<SectionInfoSigPayload>,
}

impl View for NetworkEvent {
    type V = NetworkEventView;

    open spec fn view(&self) -> NetworkEventView {
        NetworkEventView { payload: self.payload@, signature: self.signature }
    }
}

impl Clone for NetworkEvent {
    fn clone(&self) -> (r: Self)
        ensures
            r@ == self@,
    {
        NetworkEvent { payload: self.payload.clone(), signature: self.signature }
    }
}

/// Whether two attributed events are the same.
pub fn network_event_eq(a: &NetworkEvent, b: &NetworkEvent) -> (r: bool)
    ensures
        r == (a@ == b@),
{
    let sig_eq = match (&a.signature, &b.signature) {
        (Some(x), Some(y)) => x == y,
        (None, None) => true,
        _ => false,
    };
    sig_eq && event_eq(&a.payload, &b.payload)
}

/// An observation submitted to, or decoded from, the agreement engine.
#[derive(Debug, PartialEq, Eq)]
pub enum Observation {
    /// The engine's typed request to add a peer to the consensus group.
    Add { peer_id: PublicId, related_info: Vec<u8> },
    /// The engine's typed request to remove a peer from the consensus group.
    Remove { peer_id: PublicId, related_info: Vec<u8> },
    /// Any other agreement, opaque to the engine.
    OpaquePayload(NetworkEvent),
}

/// The mathematical value of an [`Observation`].
pub enum ObservationView {
    Add { peer_id: PublicId, related_info: Seq<u8> },
    Remove { peer_id: PublicId, related_info: Seq<u8> },
    OpaquePayload(NetworkEventView),
}

impl View for Observation {
    type V = ObservationView;

    open spec fn view(&self) -> ObservationView {
        match self {
            Observation::Add { peer_id, related_info } => ObservationView::Add {
                peer_id: *peer_id,
                related_info: related_info@,
            },
            Observation::Remove { peer_id, related_info } => ObservationView::Remove {
                peer_id: *peer_id,
                related_info: related_info@,
            },
            Observation::OpaquePayload(ev) => ObservationView::OpaquePayload(ev@),
        }
    }
}

/// The observation the agreement engine receives for a given event: elder
/// additions and removals use the engine's typed observations with empty
/// related info; everything else rides in an opaque payload.
pub open spec fn spec_into_obs(ev: NetworkEventView) -> ObservationView {
    match ev.payload {
        AccumulatingEventView::AddElder(id) => ObservationView::Add {
            peer_id: id,
            related_info: Seq::empty(),
        },
        AccumulatingEventView::RemoveElder(id) => ObservationView::Remove {
            peer_id: id,
            related_info: Seq::empty(),
        },
        _ => ObservationView::OpaquePayload(ev),
    }
}

impl NetworkEvent {
    /// The section snapshot, if the payload is a section-info agreement.
    pub fn elders_info(&self) -> (r: Option<&EldersInfo>)
        ensures
            match r {
                Some(info) => self@.payload == AccumulatingEventView::SectionInfo(info@),
                None => !(self@.payload is SectionInfo),
            },
    {
        self.payload.elders_info()
    }

    /// Convert the event into the agreement engine's observation.
    pub fn into_obs(self) -> (r: Result<Observation, RoutingError>)
        ensures
            r matches Ok(obs) && obs@ == spec_into_obs(self@),
    {
        Ok(
            match self {
                NetworkEvent { payload: AccumulatingEvent::AddElder(id), .. } => Observation::Add {
                    peer_id: id,
                    related_info: Vec::new(),
                },
                NetworkEvent {
                    payload: AccumulatingEvent::RemoveElder(id),
                    ..
                } => Observation::Remove { peer_id: id, related_info: Vec::new() },
                event => Observation::OpaquePayload(event),
            },
        )
    }
}

} // verus!
