use vstd::prelude::*;
use crate::elders_info::{spec_info_tag, EldersInfo};
use crate::error::RoutingError;
use crate::id::{FullId, PublicId, Signature};
use crate::id_map::IdMap;

verus! {

/// One signer's vote: its identity and its signature over a payload
/// determined by context.
#[derive(Clone, Copy, PartialEq, Eq, Structural, PartialOrd, Ord, Hash, Debug)]
pub struct Proof {
    pub pub_id: PublicId,
    pub sig: Signature,
}

impl Proof {
    /// Sign a section snapshot with our identity.
    pub fn new(full_id: &FullId, info: &EldersInfo) -> (r: Result<Proof, RoutingError>)
        ensures
            r matches Ok(p) && p == (Proof {
                pub_id: full_id.public_id,
                sig: Signature { signer: full_id.public_id.0, over: spec_info_tag(info@) },
            }),
    {
        let sig = full_id.sign_detached(info.tag());
        Ok(Proof { pub_id: *full_id.public_id(), sig })
    }
}

/// Signatures from distinct signers over the same payload.
#[derive(Debug, PartialEq, Eq)]
pub struct ProofSet {
    pub sigs: IdMap<Signature>,
}

impl Clone for ProofSet {
    fn clone(&self) -> (r: Self)
        ensures
            r@ == self@,
            self.wf() ==> r.wf(),
    {
        ProofSet { sigs: self.sigs.clone() }
    }
}

impl ProofSet {
    /// The map from signer to signature the set stands for.
    pub open spec fn view(&self) -> Map<PublicId, Signature> {
        self.sigs@
    }

    pub open spec fn wf(&self) -> bool {
        self.sigs.wf()
    }

    pub fn new() -> (r: ProofSet)
        ensures
            r.wf(),
            r@ == Map::<PublicId, Signature>::empty(),
    {
        ProofSet { sigs: IdMap::new() }
    }

    /// Record the proof, replacing any earlier signature by the same signer.
    /// Returns `false` exactly when the signer had already contributed.
    pub fn add_proof(&mut self, proof: Proof) -> (fresh: bool)
        requires
            old(self).wf(),
        ensures
            final(self).wf(),
            final(self)@ == old(self)@.insert(proof.pub_id, proof.sig),
            fresh == !old(self)@.dom().contains(proof.pub_id),
    {
        !self.sigs.insert(proof.pub_id, proof.sig)
    }

    /// Whether the set contains a signature by that identity.
    pub fn contains_id(&self, id: &PublicId) -> (r: bool)
        requires
            self.wf(),
        ensures
            r == self@.dom().contains(*id),
    {
        self.sigs.contains(id)
    }
}

impl Default for ProofSet {
    fn default() -> (r: ProofSet)
        ensures
            r.wf(),
            r@ == Map::<PublicId, Signature>::empty(),
    {
        ProofSet::new()
    }
}

} // verus!
