use vstd::prelude::*;
use crate::assoc_list::{assoc_map, contains_key, distinct_keys, index_of, lemma_at_index,
    lemma_insert_at, lemma_remove, lemma_update};

use crate::event_order::{event_cmp, event_lt, lemma_event_lt_transitive};
use crate::id::{PublicId, Signature};
use crate::id_map::IdMap;
use crate::network_event::{event_eq, AccumulatingEvent, AccumulatingEventView, NetworkEvent,
    NetworkEventView, SectionInfoSigPayload};
use crate::proof_set::{Proof, ProofSet};

verus! {

/// The proofs collected so far for one pending event: the consensus votes and
/// the threshold-signature shares that came with them.
#[derive(Debug, PartialEq, Eq)]
pub struct AccumulatingProof {
    pub parsec_proofs: ProofSet,
    pub sig_shares: IdMap<SectionInfoSigPayload>,
}

/// The mathematical value of an [`AccumulatingProof`].
pub struct AccumulatingProofView {
    pub parsec_proofs: Map<PublicId, Signature>,
    pub sig_shares: Map<PublicId, SectionInfoSigPayload>,
}

impl View for AccumulatingProof {
    type V = AccumulatingProofView;

    open spec fn view(&self) -> AccumulatingProofView {
        AccumulatingProofView { parsec_proofs: self.parsec_proofs@, sig_shares: self.sig_shares@ }
    }
}

/// A proof bundle holding no votes and no shares.
pub open spec fn spec_empty_proof() -> AccumulatingProofView {
    AccumulatingProofView {
        parsec_proofs: Map::empty(),
        sig_shares: Map::empty(),
    }
}

/// A proof bundle made of a bulk proof set; the share map of a bulk insert
/// is empty.
pub open spec fn spec_from_proof_set(proofs: Map<PublicId, Signature>) -> AccumulatingProofView {
    AccumulatingProofView { parsec_proofs: proofs, sig_shares: Map::empty() }
}

/// The proof bundle after one signer's contribution: the vote is recorded
/// under the signer, and the share, when one came, under the same signer.
pub open spec fn spec_add_proof(
    pv: AccumulatingProofView,
    proof: Proof,
    info_sig: Option<SectionInfoSigPayload>,
) -> AccumulatingProofView {
    AccumulatingProofView {
        parsec_proofs: pv.parsec_proofs.insert(proof.pub_id, proof.sig),
        sig_shares: match info_sig {
            Some(s) => pv.sig_shares.insert(proof.pub_id, s),
            None => pv.sig_shares,
        },
    }
}

/// Whether the contribution is the signer's first: neither its vote nor (when
/// one came) its share replaces an earlier one.
pub open spec fn spec_add_proof_fresh(
    pv: AccumulatingProofView,
    proof: Proof,
    info_sig: Option<SectionInfoSigPayload>,
) -> bool {
    &&& !pv.parsec_proofs.dom().contains(proof.pub_id)
    &&& (info_sig matches Some(_) ==> !pv.sig_shares.dom().contains(proof.pub_id))
}

impl AccumulatingProof {
    /// A node cannot contribute a threshold share without also voting: every
    /// signer of a share also appears among the votes.
    pub open spec fn wf(&self) -> bool {
        &&& self.parsec_proofs.wf()
        &&& self.sig_shares.wf()
        &&& self@.sig_shares.dom().subset_of(self@.parsec_proofs.dom())
    }

    /// Wrap a bulk proof set; the share map starts empty.
    pub fn from_proof_set(parsec_proofs: ProofSet) -> (r: AccumulatingProof)
        requires
            parsec_proofs.wf(),
        ensures
            r.wf(),
            r@ == spec_from_proof_set(parsec_proofs@),
    {
        AccumulatingProof { parsec_proofs, sig_shares: IdMap::new() }
    }

    /// Record one signer's vote and optional share. Returns `false` exactly
    /// when the signer's share or vote replaced an earlier one.
    pub fn add_proof(&mut self, proof: Proof, info_sig: Option<SectionInfoSigPayload>) -> (r: bool)
        requires
            old(self).wf(),
        ensures
            final(self).wf(),
            final(self)@ == spec_add_proof(old(self)@, proof, info_sig),
            r == spec_add_proof_fresh(old(self)@, proof, info_sig),
    {
        let new_share = match info_sig {
            Some(share) => !self.sig_shares.insert(proof.pub_id, share),
            None => true,
        };
        let new_proof = self.parsec_proofs.add_proof(proof);
        proof {
            assert(self@.sig_shares.dom().subset_of(self@.parsec_proofs.dom()));
        }
        new_share && new_proof
    }

    /// Whether the bundle holds a vote by that identity.
    pub fn contains_id(&self, id: &PublicId) -> (r: bool)
        requires
            self.wf(),
        ensures
            r == self@.parsec_proofs.dom().contains(*id),
    {
        self.parsec_proofs.contains_id(id)
    }

    pub fn parsec_proof_set(&self) -> (r: &ProofSet)
        ensures
            r == self.parsec_proofs,
    {
        &self.parsec_proofs
    }

    pub fn into_parsec_proof_set(self) -> (r: ProofSet)
        ensures
            r == self.parsec_proofs,
    {
        self.parsec_proofs
    }

    pub fn into_sig_shares(self) -> (r: IdMap<SectionInfoSigPayload>)
        ensures
            r == self.sig_shares,
    {
        self.sig_shares
    }
}

impl Default for AccumulatingProof {
    fn default() -> (r: AccumulatingProof)
        ensures
            r.wf(),
            r@ == spec_empty_proof(),
    {
        AccumulatingProof { parsec_proofs: ProofSet::new(), sig_shares: IdMap::new() }
    }
}

impl Clone for AccumulatingProof {
    fn clone(&self) -> (r: Self)
        ensures
            r@ == self@,
            self.wf() ==> r.wf(),
    {
        AccumulatingProof {
            parsec_proofs: self.parsec_proofs.clone(),
            sig_shares: self.sig_shares.clone(),
        }
    }
}

/// Why an insertion into the accumulator was not a plain success.
#[derive(Clone, Copy, PartialEq, Eq, Structural, Debug)]
pub enum InsertError {
    /// The event was already delivered; late proofs are ignored.
    AlreadyComplete,
    /// A pending entry, or a signer's own contribution, was replaced.
    ReplacedAlreadyInserted,
}

/// The outcome of a reset on section reconfiguration.
#[derive(Debug, PartialEq, Eq)]
pub struct RemainingEvents {
    /// The cached events that should be revoted, with our own signature
    /// share preserved.
    pub cached_events: Vec<NetworkEvent>,
    /// The drained completion set, for continued duplicate suppression.
    pub completed_events: Vec<AccumulatingEvent>,
}

impl Default for RemainingEvents {
    fn default() -> (r: RemainingEvents)
        ensures
            r.cached_events@.len() == 0,
            r.completed_events@.len() == 0,
    {
        RemainingEvents { cached_events: Vec::new(), completed_events: Vec::new() }
    }
}

/// The accumulator's mathematical state: the pending map and the set of
/// already delivered events.
pub struct AccModel {
    pub pending: Map<AccumulatingEventView, AccumulatingProofView>,
    pub completed: Set<AccumulatingEventView>,
}

/// Pending and completed never overlap.
pub open spec fn model_wf(s: AccModel) -> bool {
    forall|e: AccumulatingEventView| #[trigger]
        s.pending.dom().contains(e) ==> !s.completed.contains(e)
}

/// One accumulator operation, at the level of the mathematical model.
pub enum AccOp {
    InsertWithProofSet { event: AccumulatingEventView, proofs: Map<PublicId, Signature> },
    AddProof {
        event: AccumulatingEventView,
        proof: Proof,
        signature: Option<SectionInfoSigPayload>,
    },
    PollEvent { event: AccumulatingEventView },
}

/// How one operation takes the model from `pre` to `post`.
pub open spec fn acc_step(pre: AccModel, op: AccOp, post: AccModel) -> bool {
    match op {
        AccOp::InsertWithProofSet { event, proofs } => if pre.completed.contains(event) {
            post == pre
        } else {
            post == (AccModel {
                pending: pre.pending.insert(event, spec_from_proof_set(proofs)),
                completed: pre.completed,
            })
        },
        AccOp::AddProof { event, proof, signature } => if pre.completed.contains(event) {
            post == pre
        } else {
            let base = if pre.pending.dom().contains(event) {
                pre.pending[event]
            } else {
                spec_empty_proof()
            };
            post == (AccModel {
                pending: pre.pending.insert(event, spec_add_proof(base, proof, signature)),
                completed: pre.completed,
            })
        },
        AccOp::PollEvent { event } => if pre.pending.dom().contains(event) {
            post == (AccModel {
                pending: pre.pending.remove(event),
                completed: pre.completed.insert(event),
            })
        } else {
            post == pre
        },
    }
}

/// Whether the operation delivers event `e` to the caller: only a poll of a
/// pending event does.
pub open spec fn op_delivers(pre: AccModel, op: AccOp, e: AccumulatingEventView) -> bool {
    &&& op matches AccOp::PollEvent { event } && event == e
    &&& pre.pending.dom().contains(e)
}

/// The events a reset hands back for revoting: one per pending entry we had
/// voted in, with our own share (when we had contributed one) preserved and
/// everybody else's dropped.
pub open spec fn spec_cached(
    s: Seq<(AccumulatingEventView, AccumulatingProofView)>,
    our: PublicId,
) -> Seq<NetworkEventView>
    decreases s.len(),
{
    if s.len() == 0 {
        Seq::empty()
    } else {
        let rest = spec_cached(s.drop_last(), our);
        let last = s.last();
        if last.1.parsec_proofs.dom().contains(our) {
            rest.push(
                NetworkEventView {
                    payload: last.0,
                    signature: if last.1.sig_shares.dom().contains(our) {
                        Some(last.1.sig_shares[our])
                    } else {
                        None
                    },
                },
            )
        } else {
            rest
        }
    }
}

/// Pending entries in strictly ascending canonical event order.
pub open spec fn sorted_events(s: Seq<(AccumulatingEventView, AccumulatingProofView)>) -> bool {
    forall|i: int, j: int| 0 <= i < j < s.len() ==> event_lt(s[i].0, s[j].0)
}

/// Holds pending events with the proofs collected for them until the
/// lifecycle polls them, and remembers which events were already delivered so
/// late proofs are silently dropped.
#[derive(Debug)]
pub struct ChainAccumulator {
    /// Events seen but not yet polled, with their proofs so far, sorted by
    /// the canonical event order, so every node walks its pending events the
    /// same way whatever the order their votes arrived in.
    pub chain_accumulator: Vec<(AccumulatingEvent, AccumulatingProof)>,
    /// Events already delivered: further proofs for these are ignored.
    pub completed_events: Vec<AccumulatingEvent>,
}

impl ChainAccumulator {
    /// The pending entries as a sequence of mathematical values.
    pub open spec fn pending_seq(&self) -> Seq<(AccumulatingEventView, AccumulatingProofView)> {
        self.chain_accumulator@.map_values(
            |p: (AccumulatingEvent, AccumulatingProof)| (p.0@, p.1@),
        )
    }

    /// The pending entries as a map.
    pub open spec fn pending(&self) -> Map<AccumulatingEventView, AccumulatingProofView> {
        assoc_map(self.pending_seq())
    }

    /// The delivered events as a sequence of mathematical values.
    pub open spec fn completed_seq(&self) -> Seq<AccumulatingEventView> {
        self.completed_events@.map_values(|e: AccumulatingEvent| e@)
    }

    /// The delivered events as a set.
    pub open spec fn completed(&self) -> Set<AccumulatingEventView> {
        Set::new(|e: AccumulatingEventView| self.completed_seq().contains(e))
    }

    pub open spec fn model(&self) -> AccModel {
        AccModel { pending: self.pending(), completed: self.completed() }
    }

    /// Pending entries are sorted by the canonical event order and their
    /// keys are unique, delivered events are unique, the two never overlap,
    /// and every stored proof bundle is well formed.
    pub open spec fn wf(&self) -> bool {
        &&& sorted_events(self.pending_seq())
        &&& distinct_keys(self.pending_seq())
        &&& (forall|i: int, j: int|
            0 <= i < j < self.completed_seq().len() ==> self.completed_seq()[i]
                != self.completed_seq()[j])
        &&& (forall|i: int|
            0 <= i < self.pending_seq().len() ==> !self.completed_seq().contains(
                #[trigger] self.pending_seq()[i].0,
            ))
        &&& (forall|i: int|
            0 <= i < self.chain_accumulator@.len() ==> (
            #[trigger] self.chain_accumulator@[i].1).wf())
    }

    /// The index of the pending entry for `event`, if any.
    fn position_pending(&self, event: &AccumulatingEvent) -> (r: Option<usize>)
        ensures
            match r {
                Some(i) => i < self.pending_seq().len() && self.pending_seq()[i as int].0
                    == event@,
                None => !contains_key(self.pending_seq(), event@),
            },
    {
        let n = self.chain_accumulator.len();
        let mut i: usize = 0;
        while i < n
            invariant
                n == self.chain_accumulator@.len(),
                i <= n,
                forall|m: int| 0 <= m < i ==> self.pending_seq()[m].0 != event@,
            decreases n - i,
        {
            if event_eq(&self.chain_accumulator[i].0, event) {
                return Some(i);
            }
            i += 1;
        }
        proof {
            if contains_key(self.pending_seq(), event@) {
                let m = choose|m: int|
                    0 <= m < self.pending_seq().len() && self.pending_seq()[m].0 == event@;
                assert(self.pending_seq()[m].0 != event@);
            }
        }
        None
    }

    /// The position a new entry for `event` takes to keep the pending
    /// entries in canonical order.
    fn sorted_position(&self, event: &AccumulatingEvent) -> (r: usize)
        requires
            self.wf(),
            !contains_key(self.pending_seq(), event@),
        ensures
            r <= self.pending_seq().len(),
            forall|m: int| 0 <= m < r ==> event_lt(#[trigger] self.pending_seq()[m].0, event@),
            forall|m: int|
                r <= m < self.pending_seq().len() ==> event_lt(
                    event@,
                    #[trigger] self.pending_seq()[m].0,
                ),
    {
        let n = self.chain_accumulator.len();
        let mut i: usize = 0;
        while i < n
            invariant
                n == self.chain_accumulator@.len(),
                i <= n,
                self.wf(),
                !contains_key(self.pending_seq(), event@),
                forall|m: int| 0 <= m < i ==> event_lt(#[trigger] self.pending_seq()[m].0, event@),
            decreases n - i,
        {
            let c = event_cmp(&self.chain_accumulator[i].0, event);
            if c >= 0 {
                proof {
                    if c == 0 {
                        assert(self.pending_seq()[i as int].0 == event@);
                        assert(contains_key(self.pending_seq(), event@));
                    }
                    assert forall|m: int|
                        i <= m < self.pending_seq().len() implies event_lt(
                        event@,
                        #[trigger] self.pending_seq()[m].0,
                    ) by {
                        if m > i {
                            assert(event_lt(
                                self.pending_seq()[i as int].0,
                                self.pending_seq()[m].0,
                            ));
                            lemma_event_lt_transitive(
                                event@,
                                self.pending_seq()[i as int].0,
                                self.pending_seq()[m].0,
                            );
                        }
                    }
                }
                return i;
            }
            i += 1;
        }
        i
    }

    /// Whether the event was already delivered.
    fn is_completed(&self, event: &AccumulatingEvent) -> (r: bool)
        ensures
            r == self.completed().contains(event@),
    {
        let n = self.completed_events.len();
        let mut i: usize = 0;
        while i < n
            invariant
                n == self.completed_events@.len(),
                i <= n,
                forall|m: int| 0 <= m < i ==> self.completed_seq()[m] != event@,
            decreases n - i,
        {
            if event_eq(&self.completed_events[i], event) {
                proof {
                    assert(self.completed_seq()[i as int] == event@);
                    assert(self.completed_seq().contains(event@));
                }
                return true;
            }
            i += 1;
        }
        proof {
            if self.completed_seq().contains(event@) {
                let m = choose|m: int|
                    0 <= m < self.completed_seq().len() && self.completed_seq()[m] == event@;
                assert(self.completed_seq()[m] != event@);
            }
        }
        false
    }

    /// Bulk-insert an event with a ready proof set. Fails with
    /// `AlreadyComplete` on a delivered event; fails with
    /// `ReplacedAlreadyInserted` when a pending entry existed, which is
    /// nonetheless overwritten by the incoming one.
    pub fn insert_with_proof_set(&mut self, event: AccumulatingEvent, proof_set: ProofSet) -> (r:
        Result<(), InsertError>)
        requires
            old(self).wf(),
            proof_set.wf(),
        ensures
            final(self).wf(),
            final(self).completed_seq() == old(self).completed_seq(),
            old(self).completed().contains(event@) ==> r == Err::<(), InsertError>(
                InsertError::AlreadyComplete,
            ) && final(self).pending_seq() == old(self).pending_seq(),
            !old(self).completed().contains(event@) && contains_key(old(self).pending_seq(), event@)
                ==> r == Err::<(), InsertError>(InsertError::ReplacedAlreadyInserted) && final(self).pending_seq() == old(self).pending_seq().update(
                index_of(old(self).pending_seq(), event@),
                (event@, spec_from_proof_set(proof_set@)),
            ),
            !old(self).completed().contains(event@) && !contains_key(
                old(self).pending_seq(),
                event@,
            ) ==> r == Ok::<(), InsertError>(()) && (exists|i: int|
                0 <= i <= old(self).pending_seq().len() && final(self).pending_seq() == old(
                    self,
                ).pending_seq().insert(i, (event@, spec_from_proof_set(proof_set@)))),
            acc_step(
                old(self).model(),
                AccOp::InsertWithProofSet { event: event@, proofs: proof_set@ },
                final(self).model(),
            ),
    {
        let ghost pre = self.model();
        if self.is_completed(&event) {
            return Err(InsertError::AlreadyComplete);
        }
        let proof = AccumulatingProof::from_proof_set(proof_set);
        match self.position_pending(&event) {
            Some(i) => {
                let ghost s0 = self.chain_accumulator@;
                proof {
                    lemma_at_index(self.pending_seq(), i as int);
                    lemma_update(self.pending_seq(), i as int, proof@);
                }
                self.chain_accumulator.remove(i);
                self.chain_accumulator.insert(i, (event, proof));
                proof {
                    assert(self.chain_accumulator@ =~= s0.update(
                        i as int,
                        (self.chain_accumulator@[i as int].0, self.chain_accumulator@[i as int].1),
                    ));
                    assert(self.pending_seq() =~= old(self).pending_seq().update(
                        i as int,
                        (event@, spec_from_proof_set(proof_set@)),
                    ));
                    assert forall|a: int, b: int|
                        0 <= a < b < self.pending_seq().len() implies event_lt(
                        self.pending_seq()[a].0,
                        self.pending_seq()[b].0,
                    ) by {
                        assert(self.pending_seq()[a].0 == old(self).pending_seq()[a].0);
                        assert(self.pending_seq()[b].0 == old(self).pending_seq()[b].0);
                    }
                    assert(self.pending() =~= pre.pending.insert(
                        event@,
                        spec_from_proof_set(proof_set@),
                    ));
                    assert(self.completed() =~= pre.completed);
                }
                Err(InsertError::ReplacedAlreadyInserted)
            },
            None => {
                let i = self.sorted_position(&event);
                let ghost s0v = self.pending_seq();
                proof {
                    lemma_insert_at(self.pending_seq(), i as int, event@, proof@);
                }
                self.chain_accumulator.insert(i, (event, proof));
                proof {
                    assert(self.pending_seq() =~= s0v.insert(
                        i as int,
                        (event@, spec_from_proof_set(proof_set@)),
                    ));
                    s0v.insert_ensures(i as int, (event@, spec_from_proof_set(proof_set@)));
                    assert forall|a: int, b: int|
                        0 <= a < b < self.pending_seq().len() implies event_lt(
                        self.pending_seq()[a].0,
                        self.pending_seq()[b].0,
                    ) by {
                        if a == i {
                            assert(self.pending_seq()[b] == s0v[b - 1]);
                        } else if b == i {
                            assert(self.pending_seq()[a] == s0v[a]);
                        } else {
                            let a0 = if a < i {
                                a
                            } else {
                                a - 1
                            };
                            let b0 = if b < i {
                                b
                            } else {
                                b - 1
                            };
                            assert(self.pending_seq()[a] == s0v[a0]);
                            assert(self.pending_seq()[b] == s0v[b0]);
                        }
                    }
                    assert(self.completed() =~= pre.completed);
                }
                Ok(())
            },
        }
    }

    /// Record one signer's vote and optional share for an event, creating the
    /// pending entry if none exists. Fails with `AlreadyComplete` on a
    /// delivered event; reports `ReplacedAlreadyInserted` when the signer's
    /// vote or share replaced an earlier one, the newer one being retained.
    pub fn add_proof(
        &mut self,
        event: AccumulatingEvent,
        proof: Proof,
        signature: Option<SectionInfoSigPayload>,
    ) -> (r: Result<(), InsertError>)
        requires
            old(self).wf(),
        ensures
            final(self).wf(),
            final(self).completed_seq() == old(self).completed_seq(),
            old(self).completed().contains(event@) ==> r == Err::<(), InsertError>(
                InsertError::AlreadyComplete,
            ) && final(self).pending_seq() == old(self).pending_seq(),
            !old(self).completed().contains(event@) && contains_key(old(self).pending_seq(), event@)
                ==> {
                let i = index_of(old(self).pending_seq(), event@);
                let base = old(self).pending_seq()[i].1;
                &&& final(self).pending_seq() == old(self).pending_seq().update(
                    i,
                    (event@, spec_add_proof(base, proof, signature)),
                )
                &&& r == (if spec_add_proof_fresh(base, proof, signature) {
                    Ok::<(), InsertError>(())
                } else {
                    Err::<(), InsertError>(InsertError::ReplacedAlreadyInserted)
                })
            },
            !old(self).completed().contains(event@) && !contains_key(
                old(self).pending_seq(),
                event@,
            ) ==> r == Ok::<(), InsertError>(()) && (exists|i: int|
                0 <= i <= old(self).pending_seq().len() && final(self).pending_seq() == old(
                    self,
                ).pending_seq().insert(
                    i,
                    (event@, spec_add_proof(spec_empty_proof(), proof, signature)),
                )),
            acc_step(
                old(self).model(),
                AccOp::AddProof { event: event@, proof, signature },
                final(self).model(),
            ),
    {
        let ghost pre = self.model();
        if self.is_completed(&event) {
            return Err(InsertError::AlreadyComplete);
        }
        match self.position_pending(&event) {
            Some(i) => {
                let ghost s0 = self.chain_accumulator@;
                proof {
                    lemma_at_index(self.pending_seq(), i as int);
                }
                let (stored_event, mut entry) = self.chain_accumulator.remove(i);
                let fresh = entry.add_proof(proof, signature);
                proof {
                    lemma_update(s0.map_values(
                        |p: (AccumulatingEvent, AccumulatingProof)| (p.0@, p.1@),
                    ), i as int, entry@);
                }
                self.chain_accumulator.insert(i, (stored_event, entry));
                proof {
                    assert(self.chain_accumulator@ =~= s0.update(
                        i as int,
                        (self.chain_accumulator@[i as int].0, self.chain_accumulator@[i as int].1),
                    ));
                    assert(self.pending_seq() =~= old(self).pending_seq().update(
                        i as int,
                        (event@, spec_add_proof(old(self).pending_seq()[i as int].1, proof,
                        signature)),
                    ));
                    assert forall|a: int, b: int|
                        0 <= a < b < self.pending_seq().len() implies event_lt(
                        self.pending_seq()[a].0,
                        self.pending_seq()[b].0,
                    ) by {
                        assert(self.pending_seq()[a].0 == old(self).pending_seq()[a].0);
                        assert(self.pending_seq()[b].0 == old(self).pending_seq()[b].0);
                    }
                    assert(self.pending() =~= pre.pending.insert(
                        event@,
                        spec_add_proof(pre.pending[event@], proof, signature),
                    ));
                    assert(self.completed() =~= pre.completed);
                }
                if fresh {
                    Ok(())
                } else {
                    Err(InsertError::ReplacedAlreadyInserted)
                }
            },
            None => {
                let mut entry = AccumulatingProof::default();
                let fresh = entry.add_proof(proof, signature);
                let i = self.sorted_position(&event);
                let ghost s0v = self.pending_seq();
                proof {
                    lemma_insert_at(self.pending_seq(), i as int, event@, entry@);
                }
                self.chain_accumulator.insert(i, (event, entry));
                proof {
                    assert(self.pending_seq() =~= s0v.insert(
                        i as int,
                        (event@, spec_add_proof(spec_empty_proof(), proof, signature)),
                    ));
                    s0v.insert_ensures(
                        i as int,
                        (event@, spec_add_proof(spec_empty_proof(), proof, signature)),
                    );
                    assert forall|a: int, b: int|
                        0 <= a < b < self.pending_seq().len() implies event_lt(
                        self.pending_seq()[a].0,
                        self.pending_seq()[b].0,
                    ) by {
                        if a == i {
                            assert(self.pending_seq()[b] == s0v[b - 1]);
                        } else if b == i {
                            assert(self.pending_seq()[a] == s0v[a]);
                        } else {
                            let a0 = if a < i {
                                a
                            } else {
                                a - 1
                            };
                            let b0 = if b < i {
                                b
                            } else {
                                b - 1
                            };
                            assert(self.pending_seq()[a] == s0v[a0]);
                            assert(self.pending_seq()[b] == s0v[b0]);
                        }
                    }
                    assert(self.completed() =~= pre.completed);
                }
                Ok(())
            },
        }
    }

    /// Atomically remove a pending event, remember it as delivered, and hand
    /// its proof bundle to the caller. Returns nothing for an event that is
    /// not pending; in particular a delivered event is never handed out
    /// again.
    pub fn poll_event(&mut self, event: AccumulatingEvent) -> (r: Option<
        (AccumulatingEvent, AccumulatingProof),
    >)
        requires
            old(self).wf(),
        ensures
            final(self).wf(),
            contains_key(old(self).pending_seq(), event@) ==> {
                let i = index_of(old(self).pending_seq(), event@);
                &&& r matches Some(ep) && ep.0 == event && ep.1@ == old(self).pending_seq()[i].1
                &&& final(self).pending_seq() == old(self).pending_seq().remove(i)
                &&& final(self).completed_seq() == old(self).completed_seq().push(event@)
            },
            !contains_key(old(self).pending_seq(), event@) ==> r is None && final(self).pending_seq()
                == old(self).pending_seq() && final(self).completed_seq() == old(self).completed_seq(),
            acc_step(old(self).model(), AccOp::PollEvent { event: event@ }, final(self).model()),
    {
        let ghost pre = self.model();
        match self.position_pending(&event) {
            Some(i) => {
                let ghost s0 = self.chain_accumulator@;
                proof {
                    lemma_at_index(self.pending_seq(), i as int);
                    lemma_remove(self.pending_seq(), i as int);
                }
                let (stored_event, proofs) = self.chain_accumulator.remove(i);
                self.completed_events.push(stored_event);
                proof {
                    assert(self.pending_seq() =~= old(self).pending_seq().remove(i as int));
                    assert forall|a: int, b: int|
                        0 <= a < b < self.pending_seq().len() implies event_lt(
                        self.pending_seq()[a].0,
                        self.pending_seq()[b].0,
                    ) by {
                        old(self).pending_seq().remove_ensures(i as int);
                        let a0 = if a < i {
                            a
                        } else {
                            a + 1
                        };
                        let b0 = if b < i {
                            b
                        } else {
                            b + 1
                        };
                        assert(self.pending_seq()[a] == old(self).pending_seq()[a0]);
                        assert(self.pending_seq()[b] == old(self).pending_seq()[b0]);
                    }
                    assert(self.completed_seq() =~= old(self).completed_seq().push(event@));
                    assert forall|e: AccumulatingEventView| #[trigger]
                        self.completed_seq().contains(e) implies pre.completed.insert(
                        event@,
                    ).contains(e) by {
                        let m = choose|m: int|
                            0 <= m < self.completed_seq().len() && self.completed_seq()[m] == e;
                        if m < old(self).completed_seq().len() {
                            assert(old(self).completed_seq().contains(e));
                        }
                    }
                    assert forall|e: AccumulatingEventView|
                        pre.completed.insert(event@).contains(e) implies #[trigger]
                        self.completed_seq().contains(e) by {
                        if e == event@ {
                            assert(self.completed_seq()[self.completed_seq().len() - 1] == e);
                        } else {
                            let m = choose|m: int|
                                0 <= m < old(self).completed_seq().len() && old(self).completed_seq()[m] == e;
                            assert(self.completed_seq()[m] == e);
                        }
                    }
                    assert(self.completed() =~= pre.completed.insert(event@));
                    assert(self.pending() =~= pre.pending.remove(event@));
                }
                Some((event, proofs))
            },
            None => {
                None
            },
        }
    }

    /// A snapshot of every pending entry with the proofs collected so far,
    /// in strictly ascending canonical event order.
    pub fn incomplete_events(&self) -> (r: Vec<(AccumulatingEvent, AccumulatingProof)>)
        requires
            self.wf(),
        ensures
            r@.map_values(|p: (AccumulatingEvent, AccumulatingProof)| (p.0@, p.1@)) == self
                .pending_seq(),
            sorted_events(r@.map_values(|p: (AccumulatingEvent, AccumulatingProof)| (p.0@, p.1@))),
    {
        let n = self.chain_accumulator.len();
        let mut r: Vec<(AccumulatingEvent, AccumulatingProof)> = Vec::new();
        let mut i: usize = 0;
        while i < n
            invariant
                n == self.chain_accumulator@.len(),
                i <= n,
                r@.len() == i,
                r@.map_values(|p: (AccumulatingEvent, AccumulatingProof)| (p.0@, p.1@)) == self
                    .pending_seq().subrange(0, i as int),
            decreases n - i,
        {
            let pair = &self.chain_accumulator[i];
            let ghost r0 = r@;
            let item = (pair.0.clone(), pair.1.clone());
            proof {
                assert((item.0@, item.1@) == self.pending_seq()[i as int]);
            }
            r.push(item);
            proof {
                assert forall|m: int| 0 <= m < i + 1 implies r@.map_values(
                    |p: (AccumulatingEvent, AccumulatingProof)| (p.0@, p.1@),
                )[m] == #[trigger] (self.pending_seq().subrange(0, i + 1 as int)[m]) by {
                    if m < i {
                        assert(r@[m] == r0[m]);
                        assert(r0.map_values(
                            |p: (AccumulatingEvent, AccumulatingProof)| (p.0@, p.1@),
                        )[m] == self.pending_seq().subrange(0, i as int)[m]);
                    } else {
                        assert(r@[m] == item);
                    }
                }
                assert(r@.map_values(|p: (AccumulatingEvent, AccumulatingProof)| (p.0@, p.1@))
                    =~= self.pending_seq().subrange(0, i + 1 as int));
            }
            i += 1;
        }
        proof {
            assert(self.pending_seq().subrange(0, n as int) =~= self.pending_seq());
        }
        r
    }

    /// Atomically drain both sets. Hands back, for every pending event we had
    /// voted in ourselves, the event reconstructed with our own signature
    /// share (when we had contributed one) preserved; and the drained
    /// completion set, so late duplicates can still be suppressed.
    pub fn reset_accumulator(&mut self, our_id: &PublicId) -> (r: RemainingEvents)
        requires
            old(self).wf(),
        ensures
            final(self).wf(),
            final(self).pending_seq() == Seq::<
                (AccumulatingEventView, AccumulatingProofView),
            >::empty(),
            final(self).completed_seq() == Seq::<AccumulatingEventView>::empty(),
            r.cached_events@.map_values(|e: NetworkEvent| e@) == spec_cached(
                old(self).pending_seq(),
                *our_id,
            ),
            r.completed_events@.map_values(|e: AccumulatingEvent| e@) == old(self).completed_seq(),
    {
        let n = self.chain_accumulator.len();
        let mut cached: Vec<NetworkEvent> = Vec::new();
        let mut i: usize = 0;
        while i < n
            invariant
                n == self.chain_accumulator@.len(),
                i <= n,
                self == old(self),
                self.wf(),
                cached@.map_values(|e: NetworkEvent| e@) == spec_cached(
                    self.pending_seq().subrange(0, i as int),
                    *our_id,
                ),
            decreases n - i,
        {
            let pair = &self.chain_accumulator[i];
            let ghost prefix = self.pending_seq().subrange(0, i as int);
            let ghost prefix1 = self.pending_seq().subrange(0, i + 1 as int);
            proof {
                assert(prefix1.drop_last() =~= prefix);
                assert(prefix1.last() == self.pending_seq()[i as int]);
            }
            if pair.1.parsec_proofs.contains_id(our_id) {
                let share = pair.1.sig_shares.get(our_id);
                let ev = NetworkEvent { payload: pair.0.clone(), signature: share };
                cached.push(ev);
                proof {
                    assert(cached@.map_values(|e: NetworkEvent| e@) =~= spec_cached(
                        prefix1,
                        *our_id,
                    ));
                }
            } else {
                proof {
                    assert(cached@.map_values(|e: NetworkEvent| e@) =~= spec_cached(
                        prefix1,
                        *our_id,
                    ));
                }
            }
            i += 1;
        }
        proof {
            assert(self.pending_seq().subrange(0, n as int) =~= self.pending_seq());
        }
        let mut completed: Vec<AccumulatingEvent> = Vec::new();
        let m = self.completed_events.len();
        let mut j: usize = 0;
        while j < m
            invariant
                m == self.completed_events@.len(),
                j <= m,
                self == old(self),
                completed@.len() == j,
                completed@.map_values(|e: AccumulatingEvent| e@) == self.completed_seq().subrange(
                    0,
                    j as int,
                ),
            decreases m - j,
        {
            let ghost c0 = completed@;
            let item = self.completed_events[j].clone();
            proof {
                assert(item@ == self.completed_seq()[j as int]);
            }
            completed.push(item);
            proof {
                assert(completed@ == c0.push(item));
                assert(completed@.len() == j + 1);
                assert forall|m: int| 0 <= m < j + 1 implies completed@.map_values(
                    |e: AccumulatingEvent| e@,
                )[m] == #[trigger] (self.completed_seq().subrange(0, j + 1 as int)[m]) by {
                    if m < j {
                        assert(completed@[m] == c0[m]);
                        assert(c0.map_values(|e: AccumulatingEvent| e@)[m] == self
                            .completed_seq().subrange(0, j as int)[m]);
                    } else {
                        assert(completed@[m] == item);
                    }
                }
                assert(completed@.map_values(|e: AccumulatingEvent| e@) =~= self
                    .completed_seq().subrange(0, j + 1 as int));
            }
            j += 1;
        }
        proof {
            assert(self.completed_seq().subrange(0, m as int) =~= self.completed_seq());
        }
        self.chain_accumulator.clear();
        self.completed_events.clear();
        proof {
            assert(self.pending_seq() =~= Seq::<
                (AccumulatingEventView, AccumulatingProofView),
            >::empty());
            assert(self.completed_seq() =~= Seq::<AccumulatingEventView>::empty());
        }
        RemainingEvents { cached_events: cached, completed_events: completed }
    }
}

impl Default for ChainAccumulator {
    fn default() -> (r: ChainAccumulator)
        ensures
            r.wf(),
            r.pending_seq() == Seq::<(AccumulatingEventView, AccumulatingProofView)>::empty(),
            r.completed_seq() == Seq::<AccumulatingEventView>::empty(),
    {
        let r = ChainAccumulator { chain_accumulator: Vec::new(), completed_events: Vec::new() };
        proof {
            assert(r.pending_seq() =~= Seq::<
                (AccumulatingEventView, AccumulatingProofView),
            >::empty());
            assert(r.completed_seq() =~= Seq::<AccumulatingEventView>::empty());
        }
        r
    }
}

/// Disjointness: at every observable moment, a well-formed accumulator's
/// pending map and completed set share no event.
pub proof fn lemma_pending_completed_disjoint(acc: ChainAccumulator)
    requires
        acc.wf(),
    ensures
        model_wf(acc.model()),
{
    assert forall|e: AccumulatingEventView| #[trigger]
        acc.model().pending.dom().contains(e) implies !acc.model().completed.contains(e) by {
        assert(contains_key(acc.pending_seq(), e));
        let i = choose|i: int|
            0 <= i < acc.pending_seq().len() && acc.pending_seq()[i].0 == e;
        assert(!acc.completed_seq().contains(acc.pending_seq()[i].0));
    }
}

/// Every operation keeps the pending map and the completed set disjoint.
pub proof fn lemma_step_preserves_model_wf(pre: AccModel, op: AccOp, post: AccModel)
    requires
        model_wf(pre),
        acc_step(pre, op, post),
    ensures
        model_wf(post),
{
    match op {
        AccOp::InsertWithProofSet { event, .. } => {
            if !pre.completed.contains(event) {
                assert forall|e: AccumulatingEventView| #[trigger]
                    post.pending.dom().contains(e) implies !post.completed.contains(e) by {
                    if e != event {
                        assert(pre.pending.dom().contains(e));
                    }
                }
            }
        },
        AccOp::AddProof { event, .. } => {
            if !pre.completed.contains(event) {
                assert forall|e: AccumulatingEventView| #[trigger]
                    post.pending.dom().contains(e) implies !post.completed.contains(e) by {
                    if e != event {
                        assert(pre.pending.dom().contains(e));
                    }
                }
            }
        },
        AccOp::PollEvent { event } => {
            if pre.pending.dom().contains(event) {
                assert forall|e: AccumulatingEventView| #[trigger]
                    post.pending.dom().contains(e) implies !post.completed.contains(e) by {
                    assert(pre.pending.dom().contains(e));
                    assert(e != event);
                }
            }
        },
    }
}

/// A delivered event stays delivered across any further operation.
pub proof fn lemma_step_completed_monotone(
    pre: AccModel,
    op: AccOp,
    post: AccModel,
    e: AccumulatingEventView,
)
    requires
        acc_step(pre, op, post),
        pre.completed.contains(e),
    ensures
        post.completed.contains(e),
{
}

/// A run of the accumulator: each operation steps the model.
pub open spec fn valid_trace(states: Seq<AccModel>, ops: Seq<AccOp>) -> bool {
    &&& states.len() == ops.len() + 1
    &&& forall|k: int| 0 <= k < ops.len() ==> acc_step(states[k], #[trigger] ops[k], states[k + 1])
}

/// Once delivered, an event is in the completed set of every later state.
pub proof fn lemma_completed_persists(
    states: Seq<AccModel>,
    ops: Seq<AccOp>,
    e: AccumulatingEventView,
    i: int,
    j: int,
)
    requires
        valid_trace(states, ops),
        0 <= i <= j <= ops.len(),
        states[i].completed.contains(e),
    ensures
        states[j].completed.contains(e),
    decreases j - i,
{
    if i < j {
        lemma_step_completed_monotone(states[i], ops[i], states[i + 1], e);
        lemma_completed_persists(states, ops, e, i + 1, j);
    }
}

/// Disjointness holds along a whole run that starts disjoint.
pub proof fn lemma_wf_along_trace(states: Seq<AccModel>, ops: Seq<AccOp>, k: int)
    requires
        valid_trace(states, ops),
        model_wf(states[0]),
        0 <= k <= ops.len(),
    ensures
        model_wf(states[k]),
    decreases k,
{
    if k > 0 {
        lemma_wf_along_trace(states, ops, k - 1);
        lemma_step_preserves_model_wf(states[k - 1], ops[k - 1], states[k]);
    }
}

/// At-most-once delivery: across any run of bulk inserts, proof additions and
/// polls, an event is handed to the caller at most once. If the operation at
/// `i` delivered `e`, no later operation delivers it again.
pub proof fn lemma_at_most_once_delivery(
    states: Seq<AccModel>,
    ops: Seq<AccOp>,
    e: AccumulatingEventView,
    i: int,
    j: int,
)
    requires
        valid_trace(states, ops),
        model_wf(states[0]),
        0 <= i < j < ops.len(),
        op_delivers(states[i], ops[i], e),
    ensures
        !op_delivers(states[j], ops[j], e),
{
    assert(acc_step(states[i], ops[i], states[i + 1]));
    assert(states[i + 1].completed.contains(e));
    lemma_completed_persists(states, ops, e, i + 1, j);
    lemma_wf_along_trace(states, ops, j);
    if op_delivers(states[j], ops[j], e) {
        assert(states[j].pending.dom().contains(e));
        assert(false);
    }
}

/// Idempotent signer contribution: a second contribution by the same signer
/// replaces its earlier one, never widens the set of voters, and is reported
/// as a replacement.
pub proof fn lemma_idempotent_signer_contribution(
    pv: AccumulatingProofView,
    first: Proof,
    second: Proof,
    first_sig: Option<SectionInfoSigPayload>,
    second_sig: Option<SectionInfoSigPayload>,
)
    requires
        first.pub_id == second.pub_id,
    ensures
        spec_add_proof(spec_add_proof(pv, first, first_sig), second, second_sig).parsec_proofs.dom()
            == spec_add_proof(pv, first, first_sig).parsec_proofs.dom(),
        !spec_add_proof_fresh(spec_add_proof(pv, first, first_sig), second, second_sig),
{
    let once = spec_add_proof(pv, first, first_sig);
    let twice = spec_add_proof(once, second, second_sig);
    assert(once.parsec_proofs.dom().contains(second.pub_id));
    assert(twice.parsec_proofs.dom() =~= once.parsec_proofs.dom());
}

} // verus!
