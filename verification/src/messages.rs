use vstd::prelude::*;
use crate::elders_info::{genesis_info_eq, GenesisPfxInfo, GenesisPfxInfoView};
use crate::error::RoutingError;
use crate::id::{FullId, PublicId, Signature};
use crate::peer_map::ConnectionInfo;
use crate::routing_table::{Authority, Prefix};
use crate::vec_util::bytes_eq;
use crate::xor_name::XorName;

verus! {

/// Agreement to move one member to another section.
#[derive(Clone, Copy, PartialEq, Eq, Structural, PartialOrd, Ord, Hash, Debug)]
pub struct RelocateDetails {
    /// The member to relocate.
    pub pub_id: PublicId,
    /// The destination the member must rejoin near.
    pub destination: XorName,
    /// The member's age after the relocation.
    pub age: u8,
}

/// Relocation details as signed by the sending section.
#[derive(Clone, Copy, PartialEq, Eq, Structural, Debug)]
pub struct SignedRelocateDetails {
    pub content: RelocateDetails,
    /// The sending section's signature over the details.
    pub signature: Signature,
}

impl SignedRelocateDetails {
    pub fn content(&self) -> (r: &RelocateDetails)
        ensures
            r == self.content,
    {
        &self.content
    }
}

/// Binds a relocating node's fresh identity to its old one by a signature
/// the receiving section can verify against the sending section's key.
#[derive(Clone, Copy, PartialEq, Eq, Structural, Debug)]
pub struct RelocatePayload {
    pub details: SignedRelocateDetails,
    /// The fresh identity, signed with the old identity.
    pub signature_of_new_id_with_old_id: Signature,
}

impl RelocatePayload {
    pub fn new(details: SignedRelocateDetails, new_pub_id: &PublicId, old_full_id: &FullId) -> (r:
        Result<RelocatePayload, RoutingError>)
        ensures
            r matches Ok(p) && p == (RelocatePayload {
                details,
                signature_of_new_id_with_old_id: Signature {
                    signer: old_full_id.public_id.0,
                    over: new_pub_id.0.0,
                },
            }),
    {
        Ok(
            RelocatePayload {
                details,
                signature_of_new_id_with_old_id: old_full_id.sign_detached(new_pub_id.0.0),
            },
        )
    }
}

/// A bootstrap proxy's answer to a `BootstrapRequest`.
#[derive(Debug, PartialEq, Eq)]
pub enum BootstrapResponse {
    /// Join the section with this prefix, through these contacts.
    Join { prefix: Prefix, conn_infos: Vec<ConnectionInfo> },
    /// Try bootstrapping against these peers instead.
    Rebootstrap(Vec<ConnectionInfo>),
}

/// A message exchanged directly between two connected peers.
#[derive(Debug, PartialEq, Eq)]
pub enum DirectMessage {
    /// Ask a proxy which section the given address must join.
    BootstrapRequest(XorName),
    /// The proxy's answer.
    BootstrapResponse(BootstrapResponse),
    /// Ask every contact of the target section to admit us.
    JoinRequest(Option<RelocatePayload>),
}

/// The content of a routed message.
#[derive(Debug, PartialEq, Eq)]
pub enum MessageContent {
    /// The section's approval of a joining node.
    NodeApproval(GenesisPfxInfo),
    /// An opaque routed payload.
    UserMessage(Vec<u8>),
}

/// The mathematical value of a [`MessageContent`].
pub enum MessageContentView {
    NodeApproval(GenesisPfxInfoView),
    UserMessage(Seq<u8>),
}

impl View for MessageContent {
    type V = MessageContentView;

    open spec fn view(&self) -> MessageContentView {
        match self {
            MessageContent::NodeApproval(info) => MessageContentView::NodeApproval(info@),
            MessageContent::UserMessage(bytes) => MessageContentView::UserMessage(bytes@),
        }
    }
}

/// A message routed across the overlay.
#[derive(Debug, PartialEq, Eq)]
pub struct RoutingMessage {
    pub src: Authority,
    pub dst: Authority,
    pub content: MessageContent,
}

/// The mathematical value of a [`RoutingMessage`].
pub struct RoutingMessageView {
    pub src: Authority,
    pub dst: Authority,
    pub content: MessageContentView,
}

impl View for RoutingMessage {
    type V = RoutingMessageView;

    open spec fn view(&self) -> RoutingMessageView {
        RoutingMessageView { src: self.src, dst: self.dst, content: self.content@ }
    }
}

/// Whether two routed messages are the same message.
pub fn routing_msg_eq(a: &RoutingMessage, b: &RoutingMessage) -> (r: bool)
    ensures
        r == (a@ == b@),
{
    if a.src != b.src || a.dst != b.dst {
        return false;
    }
    match (&a.content, &b.content) {
        (MessageContent::NodeApproval(x), MessageContent::NodeApproval(y)) => genesis_info_eq(x, y),
        (MessageContent::UserMessage(x), MessageContent::UserMessage(y)) => bytes_eq(x, y),
        _ => false,
    }
}

/// A routed message together with the verdict of the abstract signature
/// verifier, supplied by the layer that decoded the message.
#[derive(Debug, PartialEq, Eq)]
pub struct SignedRoutingMessage {
    pub content: RoutingMessage,
    /// Whether the message's security signatures verified.
    pub verified: bool,
}

/// The mathematical value of a [`SignedRoutingMessage`].
pub struct SignedRoutingMessageView {
    pub content: RoutingMessageView,
    pub verified: bool,
}

impl View for SignedRoutingMessage {
    type V = SignedRoutingMessageView;

    open spec fn view(&self) -> SignedRoutingMessageView {
        SignedRoutingMessageView { content: self.content@, verified: self.verified }
    }
}

impl SignedRoutingMessage {
    pub fn routing_message(&self) -> (r: &RoutingMessage)
        ensures
            r == self.content,
    {
        &self.content
    }

    /// Split into the routed message and the verifier's verdict.
    pub fn into_parts(self) -> (r: (RoutingMessage, bool))
        ensures
            r.0 == self.content,
            r.1 == self.verified,
    {
        (self.content, self.verified)
    }

    /// Reassemble from the routed message and the verifier's verdict.
    pub fn from_parts(content: RoutingMessage, verified: bool) -> (r: SignedRoutingMessage)
        ensures
            r.content == content,
            r.verified == verified,
    {
        SignedRoutingMessage { content, verified }
    }
}

impl Clone for MessageContent {
    fn clone(&self) -> (r: Self)
        ensures
            r@ == self@,
    {
        match self {
            MessageContent::NodeApproval(info) => MessageContent::NodeApproval(info.clone()),
            MessageContent::UserMessage(bytes) => MessageContent::UserMessage(
                crate::vec_util::clone_copy_vec(bytes),
            ),
        }
    }
}

impl Clone for RoutingMessage {
    fn clone(&self) -> (r: Self)
        ensures
            r@ == self@,
    {
        RoutingMessage { src: self.src, dst: self.dst, content: self.content.clone() }
    }
}

impl Clone for SignedRoutingMessage {
    fn clone(&self) -> (r: Self)
        ensures
            r@ == self@,
    {
        SignedRoutingMessage { content: self.content.clone(), verified: self.verified }
    }
}

/// A message relayed hop by hop across the overlay, carrying a signed routed
/// message.
#[derive(Debug, PartialEq, Eq)]
pub struct HopMessage {
    pub content: SignedRoutingMessage,
}

impl HopMessage {
    pub fn new(content: SignedRoutingMessage) -> (r: HopMessage)
        ensures
            r.content == content,
    {
        HopMessage { content }
    }
}

} // verus!
