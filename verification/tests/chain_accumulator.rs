use routing_core::chain_accumulator::{
    AccumulatingProof, ChainAccumulator, InsertError, RemainingEvents,
};
use routing_core::elders_info::EldersInfo;
use routing_core::id::{BlsPublicKeyShare, FullId, PublicId};
use routing_core::network_event::{AccumulatingEvent, NetworkEvent, SectionInfoSigPayload};
use routing_core::proof_set::{Proof, ProofSet};
use routing_core::routing_table::Prefix;
use routing_core::xor_name::XorName;

struct TestData {
    pub our_id: PublicId,
    pub event: AccumulatingEvent,
    pub network_event: NetworkEvent,
    pub first_proof: Proof,
    pub proofs: ProofSet,
    pub acc_proofs: AccumulatingProof,
    pub signature: Option<SectionInfoSigPayload>,
}

enum EventType {
    WithSignature,
    NoSignature,
}

fn empty_elders_info() -> EldersInfo {
    EldersInfo::new(Vec::new(), Prefix::default(), 0)
}

fn ids_and_proof(seed: u64) -> (FullId, Proof) {
    let id = FullId::from_name(XorName(seed));
    let pub_id = *id.public_id();
    let sig = id.sign_detached(1);
    (id, Proof { pub_id, sig })
}

fn section_info_sig_payload(seed: u64) -> SectionInfoSigPayload {
    let (id, first_proof) = ids_and_proof(seed);
    SectionInfoSigPayload {
        pub_key_share: BlsPublicKeyShare(*id.public_id()),
        sig_share: first_proof.sig,
    }
}

fn test_data_key(event_type: EventType) -> TestData {
    let (id, first_proof) = ids_and_proof(7);
    let mut proofs = ProofSet::new();
    proofs.add_proof(first_proof);

    match event_type {
        EventType::NoSignature => TestData {
            our_id: *id.public_id(),
            event: AccumulatingEvent::OurMerge,
            network_event: AccumulatingEvent::OurMerge.into_network_event(),
            first_proof,
            proofs: proofs.clone(),
            acc_proofs: AccumulatingProof::from_proof_set(proofs),
            signature: None,
        },
        EventType::WithSignature => {
            let elders_info = empty_elders_info();
            let sig_payload = section_info_sig_payload(21);
            let mut acc_proofs = AccumulatingProof::default();
            acc_proofs.add_proof(first_proof, Some(sig_payload));

            TestData {
                our_id: *id.public_id(),
                event: AccumulatingEvent::SectionInfo(elders_info.clone()),
                network_event: AccumulatingEvent::SectionInfo(elders_info)
                    .into_network_event_with(Some(sig_payload)),
                first_proof,
                proofs,
                acc_proofs,
                signature: Some(sig_payload),
            }
        }
    }
}

fn incomplete_events(acc: &ChainAccumulator) -> Vec<(AccumulatingEvent, AccumulatingProof)> {
    acc.incomplete_events()
}

fn completed_events(acc: &ChainAccumulator) -> Vec<AccumulatingEvent> {
    acc.completed_events.clone()
}

#[test]
fn insert_with_proof_set_no_sig() {
    insert_with_proof_set(test_data_key(EventType::NoSignature));
}

fn insert_with_proof_set(data: TestData) {
    let mut acc = ChainAccumulator::default();
    let result = acc.insert_with_proof_set(data.event.clone(), data.proofs.clone());

    assert_eq!(result, Ok(()));
    assert_eq!(incomplete_events(&acc), vec![(data.event, data.acc_proofs)]);
}

#[test]
fn poll_proof_no_sig() {
    poll_proof(test_data_key(EventType::NoSignature));
}

fn poll_proof(data: TestData) {
    let mut acc = ChainAccumulator::default();
    let _ = acc.insert_with_proof_set(data.event.clone(), data.proofs.clone());

    let event_to_poll = acc.incomplete_events().into_iter().next().unwrap().0;
    let result = acc.poll_event(event_to_poll);

    assert_eq!(result, Some((data.event, data.acc_proofs)));
    assert_eq!(incomplete_events(&acc), vec![]);
}

#[test]
fn re_insert_with_proof_set_no_sig() {
    re_insert_with_proof_set(
        test_data_key(EventType::NoSignature),
        second_data_key(EventType::NoSignature),
    );
}

fn second_data_key(event_type: EventType) -> TestData {
    let (id, first_proof) = ids_and_proof(11);
    let mut proofs = ProofSet::new();
    proofs.add_proof(first_proof);

    match event_type {
        EventType::NoSignature => TestData {
            our_id: *id.public_id(),
            event: AccumulatingEvent::OurMerge,
            network_event: AccumulatingEvent::OurMerge.into_network_event(),
            first_proof,
            proofs: proofs.clone(),
            acc_proofs: AccumulatingProof::from_proof_set(proofs),
            signature: None,
        },
        EventType::WithSignature => {
            let elders_info = empty_elders_info();
            let sig_payload = section_info_sig_payload(23);
            let mut acc_proofs = AccumulatingProof::default();
            acc_proofs.add_proof(first_proof, Some(sig_payload));

            TestData {
                our_id: *id.public_id(),
                event: AccumulatingEvent::SectionInfo(elders_info.clone()),
                network_event: AccumulatingEvent::SectionInfo(elders_info)
                    .into_network_event_with(Some(sig_payload)),
                first_proof,
                proofs,
                acc_proofs,
                signature: Some(sig_payload),
            }
        }
    }
}

fn re_insert_with_proof_set(data: TestData, data2: TestData) {
    let mut acc = ChainAccumulator::default();
    let _ = acc.insert_with_proof_set(data.event.clone(), data.proofs.clone());

    let result = acc.insert_with_proof_set(data.event.clone(), data2.proofs.clone());

    assert_eq!(result, Err(InsertError::ReplacedAlreadyInserted));
    assert_eq!(incomplete_events(&acc), vec![(data.event, data2.acc_proofs)]);
}

#[test]
fn re_insert_with_proof_set_after_poll_no_sig() {
    re_insert_with_proof_set_after_poll(
        test_data_key(EventType::NoSignature),
        second_data_key(EventType::NoSignature),
    );
}

fn re_insert_with_proof_set_after_poll(data: TestData, data2: TestData) {
    let mut acc = ChainAccumulator::default();
    let _ = acc.insert_with_proof_set(data.event.clone(), data.proofs.clone());
    let _ = acc.poll_event(data.event.clone());

    let result = acc.insert_with_proof_set(data.event.clone(), data2.proofs.clone());

    assert_eq!(result, Err(InsertError::AlreadyComplete));
    assert_eq!(incomplete_events(&acc), vec![]);
}

#[test]
fn add_proof_no_sig() {
    add_proof(test_data_key(EventType::NoSignature));
}

#[test]
fn add_proof_with_sig() {
    add_proof(test_data_key(EventType::WithSignature));
}

fn add_proof(data: TestData) {
    let mut acc = ChainAccumulator::default();
    let result = acc.add_proof(data.event.clone(), data.first_proof, data.signature.clone());

    assert_eq!(result, Ok(()));
    assert_eq!(incomplete_events(&acc), vec![(data.event, data.acc_proofs)]);
}

#[test]
fn re_add_proof_no_sig() {
    re_add_proof(test_data_key(EventType::NoSignature));
}

#[test]
fn re_add_proof_with_sig() {
    re_add_proof(test_data_key(EventType::WithSignature));
}

fn re_add_proof(data: TestData) {
    let mut acc = ChainAccumulator::default();
    let _ = acc.add_proof(data.event.clone(), data.first_proof, data.signature.clone());

    let result = acc.add_proof(data.event.clone(), data.first_proof, data.signature.clone());

    assert_eq!(result, Err(InsertError::ReplacedAlreadyInserted));
    assert_eq!(incomplete_events(&acc), vec![(data.event, data.acc_proofs)]);
}

#[test]
fn re_add_proof_after_poll_no_sig() {
    re_add_proof_after_poll(test_data_key(EventType::NoSignature));
}

#[test]
fn re_add_proof_after_poll_with_sig() {
    re_add_proof_after_poll(test_data_key(EventType::WithSignature));
}

fn re_add_proof_after_poll(data: TestData) {
    let mut acc = ChainAccumulator::default();
    let _ = acc.add_proof(data.event.clone(), data.first_proof, data.signature.clone());
    let _ = acc.poll_event(data.event.clone());

    let result = acc.add_proof(data.event, data.first_proof, data.signature);

    assert_eq!(result, Err(InsertError::AlreadyComplete));
    assert_eq!(incomplete_events(&acc), vec![]);
}

#[test]
fn reset_all_completed_no_sig() {
    reset_all_completed(test_data_key(EventType::NoSignature));
}

#[test]
fn reset_all_completed_with_sig() {
    reset_all_completed(test_data_key(EventType::WithSignature));
}

fn reset_all_completed(data: TestData) {
    let mut acc = ChainAccumulator::default();
    let _ = acc.add_proof(data.event.clone(), data.first_proof, data.signature.clone());
    let _ = acc.poll_event(data.event.clone());

    let result = acc.reset_accumulator(&data.our_id);

    assert_eq!(
        result,
        RemainingEvents {
            cached_events: vec![],
            completed_events: vec![data.event.clone()],
        }
    );
    assert_eq!(incomplete_events(&acc), vec![]);
    assert_eq!(completed_events(&acc), vec![]);
}

#[test]
fn reset_none_completed_no_sig() {
    reset_none_completed(test_data_key(EventType::NoSignature));
}

#[test]
fn reset_none_completed_with_sig() {
    reset_none_completed(test_data_key(EventType::WithSignature));
}

fn reset_none_completed(data: TestData) {
    let mut acc = ChainAccumulator::default();
    let _ = acc.add_proof(data.event.clone(), data.first_proof, data.signature.clone());

    let result = acc.reset_accumulator(&data.our_id);

    assert_eq!(
        result,
        RemainingEvents {
            cached_events: vec![data.network_event],
            completed_events: vec![],
        }
    );
    assert_eq!(incomplete_events(&acc), vec![]);
    assert_eq!(completed_events(&acc), vec![]);
}

#[test]
fn reset_none_completed_none_our_id_no_sig() {
    reset_none_completed_none_our_id(test_data_key(EventType::NoSignature));
}

#[test]
fn reset_none_completed_none_our_id_with_sig() {
    reset_none_completed_none_our_id(test_data_key(EventType::WithSignature));
}

fn reset_none_completed_none_our_id(data: TestData) {
    let our_id = *FullId::from_name(XorName(99)).public_id();
    let mut acc = ChainAccumulator::default();
    let _ = acc.add_proof(data.event.clone(), data.first_proof, data.signature.clone());

    let result = acc.reset_accumulator(&our_id);

    assert_eq!(result, RemainingEvents::default());
    assert_eq!(incomplete_events(&acc), vec![]);
    assert_eq!(completed_events(&acc), vec![]);
}

#[test]
fn poll_then_reinsert_is_already_complete() {
    // One event delivered once: a later bulk insert is refused and the
    // snapshot stays empty.
    let data = test_data_key(EventType::NoSignature);
    let mut acc = ChainAccumulator::default();
    assert_eq!(
        acc.insert_with_proof_set(data.event.clone(), data.proofs.clone()),
        Ok(())
    );
    let polled = acc.poll_event(data.event.clone());
    assert_eq!(polled, Some((data.event.clone(), data.acc_proofs.clone())));
    assert_eq!(acc.poll_event(data.event.clone()), None);
    assert_eq!(
        acc.insert_with_proof_set(data.event.clone(), data.proofs.clone()),
        Err(InsertError::AlreadyComplete)
    );
    assert_eq!(incomplete_events(&acc), vec![]);
}

#[test]
fn add_proof_two_signers_accumulates() {
    // Contributions by distinct signers are both kept and neither is
    // reported as a replacement.
    let (_id_a, proof_a) = ids_and_proof(1);
    let (_id_b, proof_b) = ids_and_proof(2);
    let mut acc = ChainAccumulator::default();
    assert_eq!(
        acc.add_proof(AccumulatingEvent::OurMerge, proof_a, None),
        Ok(())
    );
    assert_eq!(
        acc.add_proof(AccumulatingEvent::OurMerge, proof_b, None),
        Ok(())
    );
    let snapshot = acc.incomplete_events();
    assert_eq!(snapshot.len(), 1);
    let (event, proofs) = &snapshot[0];
    assert_eq!(*event, AccumulatingEvent::OurMerge);
    assert!(proofs.parsec_proof_set().sigs.entries.iter().any(|e| e.0 == proof_a.pub_id));
    assert!(proofs.parsec_proof_set().sigs.entries.iter().any(|e| e.0 == proof_b.pub_id));
}

#[test]
fn same_signer_twice_keeps_one_vote() {
    // Two contributions by the same signer never leave more than one vote
    // under that signer.
    let (_id, proof) = ids_and_proof(3);
    let mut acc = ChainAccumulator::default();
    let _ = acc.add_proof(AccumulatingEvent::ParsecPrune, proof, None);
    let _ = acc.add_proof(AccumulatingEvent::ParsecPrune, proof, None);
    let snapshot = acc.incomplete_events();
    assert_eq!(snapshot.len(), 1);
    assert_eq!(snapshot[0].1.parsec_proof_set().sigs.entries.len(), 1);
}

#[test]
fn snapshot_is_in_canonical_event_order() {
    // Whatever the arrival order of the votes, the snapshot walks the
    // pending events in the canonical order: by kind first, elder additions
    // least.
    let (_id_a, proof_a) = ids_and_proof(1);
    let elder = *FullId::from_name(XorName(50)).public_id();
    let mut acc = ChainAccumulator::default();
    assert_eq!(acc.add_proof(AccumulatingEvent::ParsecPrune, proof_a, None), Ok(()));
    assert_eq!(acc.add_proof(AccumulatingEvent::OurMerge, proof_a, None), Ok(()));
    assert_eq!(acc.add_proof(AccumulatingEvent::AddElder(elder), proof_a, None), Ok(()));
    let events: Vec<AccumulatingEvent> =
        acc.incomplete_events().into_iter().map(|p| p.0).collect();
    assert_eq!(
        events,
        vec![
            AccumulatingEvent::AddElder(elder),
            AccumulatingEvent::OurMerge,
            AccumulatingEvent::ParsecPrune,
        ]
    );

    // Two accumulators fed the same votes in different orders agree on the
    // snapshot.
    let mut other = ChainAccumulator::default();
    assert_eq!(other.add_proof(AccumulatingEvent::AddElder(elder), proof_a, None), Ok(()));
    assert_eq!(other.add_proof(AccumulatingEvent::OurMerge, proof_a, None), Ok(()));
    assert_eq!(other.add_proof(AccumulatingEvent::ParsecPrune, proof_a, None), Ok(()));
    assert_eq!(acc.incomplete_events(), other.incomplete_events());
}

#[test]
fn same_kind_events_order_by_payload() {
    // Within one kind, the payload decides: identities by address.
    let (_id_a, proof_a) = ids_and_proof(1);
    let low = *FullId::from_name(XorName(3)).public_id();
    let high = *FullId::from_name(XorName(9)).public_id();
    let mut acc = ChainAccumulator::default();
    assert_eq!(acc.add_proof(AccumulatingEvent::Offline(high), proof_a, None), Ok(()));
    assert_eq!(acc.add_proof(AccumulatingEvent::Offline(low), proof_a, None), Ok(()));
    let events: Vec<AccumulatingEvent> =
        acc.incomplete_events().into_iter().map(|p| p.0).collect();
    assert_eq!(
        events,
        vec![AccumulatingEvent::Offline(low), AccumulatingEvent::Offline(high)]
    );
}

#[test]
fn reset_keeps_only_our_vote_among_many() {
    // A reset hands back exactly the pending events we had voted in.
    let (id_u, proof_u) = ids_and_proof(5);
    let (_id_v, proof_v) = ids_and_proof(6);
    let mut acc = ChainAccumulator::default();
    let _ = acc.add_proof(AccumulatingEvent::OurMerge, proof_u, None);
    let _ = acc.add_proof(AccumulatingEvent::ParsecPrune, proof_v, None);

    let result = acc.reset_accumulator(id_u.public_id());
    assert_eq!(
        result.cached_events,
        vec![AccumulatingEvent::OurMerge.into_network_event()]
    );
    assert_eq!(result.completed_events, vec![]);
}
