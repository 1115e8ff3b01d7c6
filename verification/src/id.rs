use vstd::prelude::*;
use crate::xor_name::XorName;

verus! {

/// A node's public identity. The identity determines the node's overlay
/// address deterministically; the model keeps exactly that address.
#[derive(Clone, Copy, PartialEq, Eq, Structural, PartialOrd, Ord, Hash, Debug)]
pub struct PublicId(pub XorName);

impl PublicId {
    /// The overlay address derived from this identity.
    pub fn name(&self) -> (r: XorName)
        ensures
            r == self.0,
    {
        self.0
    }
}

/// A signature over a payload determined by context. The model records which
/// identity signed and a tag standing for the signed payload.
#[derive(Clone, Copy, PartialEq, Eq, Structural, PartialOrd, Ord, Hash, Debug)]
pub struct Signature {
    pub signer: XorName,
    pub over: u64,
}

/// A node's full identity: the public part together with the (abstract)
/// signing capability.
#[derive(Clone, Copy, PartialEq, Eq, Structural, Debug)]
pub struct FullId {
    pub public_id: PublicId,
}

impl FullId {
    /// The identity whose address is `name`.
    pub fn from_name(name: XorName) -> (r: FullId)
        ensures
            r == (FullId { public_id: PublicId(name) }),
    {
        FullId { public_id: PublicId(name) }
    }

    pub fn public_id(&self) -> (r: &PublicId)
        ensures
            r == self.public_id,
    {
        &self.public_id
    }

    /// Sign a payload tag with this identity.
    pub fn sign_detached(&self, payload: u64) -> (r: Signature)
        ensures
            r == (Signature { signer: self.public_id.0, over: payload }),
    {
        Signature { signer: self.public_id.0, over: payload }
    }
}

/// The public share held by one participant of the section's threshold key.
#[derive(Clone, Copy, PartialEq, Eq, Structural, PartialOrd, Ord, Hash, Debug)]
pub struct BlsPublicKeyShare(pub PublicId);

} // verus!
