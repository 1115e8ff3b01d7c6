use routing_core::elders_info::EldersInfo;
use routing_core::id::{BlsPublicKeyShare, FullId, PublicId, Signature};
use routing_core::network_event::{
    network_event_eq, AccumulatingEvent, Digest, NetworkEvent, Observation, OnlinePayload,
    SectionInfoSigPayload,
};
use routing_core::proof_set::{Proof, ProofSet};
use routing_core::routing_table::{Authority, Prefix};
use routing_core::xor_name::XorName;

// Elder additions become the engine's typed "add peer" observation with
// empty related info.
#[test]
fn add_elder_becomes_typed_observation() {
    let id = PublicId(XorName(9));
    let obs = AccumulatingEvent::AddElder(id).into_network_event().into_obs().unwrap();
    assert_eq!(obs, Observation::Add { peer_id: id, related_info: vec![] });
}

// Elder removals become the engine's typed "remove peer" observation.
#[test]
fn remove_elder_becomes_typed_observation() {
    let id = PublicId(XorName(10));
    let obs = AccumulatingEvent::RemoveElder(id).into_network_event().into_obs().unwrap();
    assert_eq!(obs, Observation::Remove { peer_id: id, related_info: vec![] });
}

// Every other agreement rides opaquely, signature share included.
#[test]
fn other_events_become_opaque_payload() {
    let event = AccumulatingEvent::Online(OnlinePayload { pub_id: PublicId(XorName(3)), age: 4 });
    let network_event = event.into_network_event();
    let expected = AccumulatingEvent::Online(OnlinePayload { pub_id: PublicId(XorName(3)), age: 4 })
        .into_network_event();
    let obs = network_event.into_obs().unwrap();
    assert_eq!(obs, Observation::OpaquePayload(expected));
}

// Wrapping and splitting an attributed event is lossless.
#[test]
fn network_event_round_trip() {
    let payload = section_payload(5);
    let event = AccumulatingEvent::NeighbourMerge(Digest(77));
    let network_event = event.clone().into_network_event_with(Some(payload));
    let (back, sig) = AccumulatingEvent::from_network_event(network_event);
    assert_eq!(back, event);
    assert_eq!(sig, Some(payload));
}

fn section_payload(seed: u64) -> SectionInfoSigPayload {
    let id = FullId::from_name(XorName(seed));
    SectionInfoSigPayload {
        pub_key_share: BlsPublicKeyShare(*id.public_id()),
        sig_share: id.sign_detached(2),
    }
}

// Only the section-info agreement exposes a section snapshot.
#[test]
fn elders_info_accessor() {
    let info = EldersInfo::new(vec![PublicId(XorName(1))], Prefix::default(), 3);
    let event = AccumulatingEvent::SectionInfo(info.clone());
    assert_eq!(event.elders_info(), Some(&info));
    assert_eq!(AccumulatingEvent::OurMerge.elders_info(), None);
    let network_event = event.into_network_event();
    assert_eq!(network_event.elders_info(), Some(&info));
}

// Our signature share over a snapshot names our key share and signs the
// snapshot's payload tag.
#[test]
fn section_info_sig_payload_signs_the_snapshot() {
    let full_id = FullId::from_name(XorName(8));
    let info = EldersInfo::new(vec![PublicId(XorName(2))], Prefix::new(1, 1), 6);
    let payload = SectionInfoSigPayload::new(&info, &full_id).unwrap();
    assert_eq!(payload.pub_key_share, BlsPublicKeyShare(*full_id.public_id()));
    // The tag folds the members' addresses with the prefix and version.
    let expected_tag = 2u64 ^ 1 ^ 1 ^ 6;
    assert_eq!(
        payload.sig_share,
        Signature { signer: XorName(8), over: expected_tag }
    );
}

// A second contribution by the same signer replaces, never adds.
#[test]
fn proof_set_same_signer_replaces() {
    let id = FullId::from_name(XorName(4));
    let mut set = ProofSet::new();
    let first = Proof { pub_id: *id.public_id(), sig: id.sign_detached(1) };
    let second = Proof { pub_id: *id.public_id(), sig: id.sign_detached(2) };
    assert!(set.add_proof(first));
    assert!(!set.add_proof(second));
    assert_eq!(set.sigs.entries.len(), 1);
    assert_eq!(set.sigs.entries[0].1, id.sign_detached(2));
    assert!(set.contains_id(id.public_id()));
}

// Attributed events compare by their content, however the bytes were built.
#[test]
fn network_event_equality_is_by_content() {
    let mut bytes_a = Vec::new();
    bytes_a.push(1u8);
    bytes_a.push(2u8);
    let bytes_b = vec![1u8, 2u8];
    let a = AccumulatingEvent::User(bytes_a).into_network_event();
    let b = AccumulatingEvent::User(bytes_b).into_network_event();
    assert!(network_event_eq(&a, &b));
    let c = AccumulatingEvent::User(vec![1u8, 3u8]).into_network_event();
    assert!(!network_event_eq(&a, &c));
    let d = AccumulatingEvent::User(vec![1u8, 2u8]).into_network_event_with(Some(section_payload(5)));
    assert!(!network_event_eq(&a, &d));
}

// Prefix matching goes by the top bits of the address.
#[test]
fn prefix_matching() {
    let p = Prefix::new(0b101, 3);
    assert!(p.matches(XorName(0b101u64 << 61)));
    assert!(p.matches(XorName((0b101u64 << 61) | 12345)));
    assert!(!p.matches(XorName(0b100u64 << 61)));
    assert!(Prefix::default().matches(XorName(777)));
}

// Forcing a prefix onto an address keeps the low bits and lands inside the
// prefix.
#[test]
fn prefix_substitution() {
    let p = Prefix::new(0b11, 2);
    let forced = p.substituted(XorName(5));
    assert_eq!(forced, XorName((0b11u64 << 62) | 5));
    assert!(p.matches(forced));
}

// Authority names: only a node authority is a single peer.
#[test]
fn authority_shape() {
    let node = Authority::Node { name: XorName(4) };
    assert!(node.is_single());
    assert_eq!(node.name(), XorName(4));
    let section = Authority::Section { name: XorName(5) };
    assert!(!section.is_single());
    let prefix_section = Authority::PrefixSection { prefix: Prefix::new(1, 1) };
    assert!(!prefix_section.is_single());
    assert_eq!(prefix_section.name(), XorName(1u64 << 63));
}
