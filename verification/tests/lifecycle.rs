use routing_core::bootstrapping_peer::BootstrappingPeer;
use routing_core::elders_info::{EldersInfo, GenesisPfxInfo};
use routing_core::error::RoutingError;
use routing_core::event::{Action, Event};
use routing_core::id::{FullId, Signature};
use routing_core::joining_peer::JoiningPeer;
use routing_core::messages::{
    BootstrapResponse, DirectMessage, HopMessage, MessageContent, RelocateDetails, RoutingMessage,
    SignedRelocateDetails, SignedRoutingMessage,
};
use routing_core::peer_map::{ConnectionInfo, PeerAddr, PeerMap};
use routing_core::routing_table::{Authority, Prefix};
use routing_core::state_machine::{State, Transition};
use routing_core::timer::Timer;
use routing_core::xor_name::XorName;

fn conn(addr: u64) -> ConnectionInfo {
    ConnectionInfo { peer_addr: PeerAddr(addr) }
}

// Losing the proxy connection while bootstrapping doesn't stall: it triggers
// a re-bootstrap attempt, and when the link layer has no one left to
// bootstrap to, the node terminates.
#[test]
fn lose_proxy_connection() {
    let min_section_size = 8;
    let our_id = FullId::from_name(XorName(1));
    let (mut peer, actions) = BootstrappingPeer::new(our_id, min_section_size, Timer::new());
    assert_eq!(actions, vec![Action::Bootstrap]);

    // The link layer reports a bootstrap connection; the peer must send a
    // `BootstrapRequest` to it.
    let proxy = conn(100);
    let (t, actions) = peer.handle_bootstrapped_to(proxy);
    assert!(matches!(t, Transition::Stay));
    let ok = matches!(
        &actions[..],
        [Action::SendDirect { to, msg: DirectMessage::BootstrapRequest(dest) }]
            if *to == proxy && *dest == XorName(1)
    );
    if !ok {
        panic!("Should have sent a `BootstrapRequest`.");
    }

    // The proxy dies while no other connection is awaited: the peer drops it
    // and asks the link layer to bootstrap again.
    let (t, actions) = peer.handle_connection_failure(PeerAddr(100));
    assert!(matches!(t, Transition::Stay));
    assert_eq!(
        actions,
        vec![Action::DisconnectFrom(PeerAddr(100)), Action::Bootstrap]
    );

    // There is no one to bootstrap to: the node surfaces `Terminated`.
    let (t, actions) = peer.handle_bootstrap_failure();
    assert!(matches!(t, Transition::Terminate));
    assert_eq!(actions, vec![Action::Emit(Event::Terminated)]);
}

// Three join timeouts in a row exhaust the attempts: the node disconnects
// from every peer in its map and goes back to bootstrapping with a fresh
// identity.
#[test]
fn join_exhaustion() {
    let full_id = FullId::from_name(XorName(42));
    let contact = conn(7);
    let mut pm = PeerMap::new();
    pm.connect(contact);
    let (mut jp, actions) = JoiningPeer::new(full_id, 8, Timer::new(), pm, vec![contact], None);
    assert_eq!(
        actions,
        vec![Action::SendDirect { to: contact, msg: DirectMessage::JoinRequest(None) }]
    );

    // First timeout: retry with a new token.
    let token = jp.join_token;
    let (t, actions) = jp.handle_timeout(token);
    assert!(matches!(t, Transition::Stay));
    assert_eq!(
        actions,
        vec![Action::SendDirect { to: contact, msg: DirectMessage::JoinRequest(None) }]
    );
    let token2 = jp.join_token;
    assert_ne!(token, token2);

    // Second timeout: retry again.
    let (t, _) = jp.handle_timeout(token2);
    assert!(matches!(t, Transition::Stay));

    // Third timeout: attempts exhausted, disconnect everyone, rebootstrap.
    let token3 = jp.join_token;
    let (t, actions) = jp.handle_timeout(token3);
    assert!(matches!(t, Transition::Rebootstrap));
    assert_eq!(actions, vec![Action::DisconnectFrom(PeerAddr(7))]);

    let new_id = FullId::from_name(XorName(43));
    let (state, actions) = jp.rebootstrap(new_id).unwrap();
    assert_eq!(actions, vec![Action::Bootstrap]);
    match state {
        State::BootstrappingPeer(b) => {
            assert_eq!(*b.full_id(), new_id);
            assert_ne!(*b.full_id(), full_id);
        }
        _ => panic!("rebootstrap must land in the bootstrapping state"),
    }
}

// A timer callback whose token matches no stored token has no observable
// effect, in either early lifecycle state.
#[test]
fn stale_token_is_ignored() {
    let (mut peer, _) = BootstrappingPeer::new(FullId::from_name(XorName(1)), 8, Timer::new());
    let proxy = conn(5);
    let _ = peer.handle_bootstrapped_to(proxy);
    let stored = peer.bootstrap_connection;
    let (t, actions) = peer.handle_timeout(9999);
    assert!(matches!(t, Transition::Stay));
    assert_eq!(actions, vec![]);
    assert_eq!(peer.bootstrap_connection, stored);

    let (mut jp, _) = JoiningPeer::new(
        FullId::from_name(XorName(2)),
        8,
        Timer::new(),
        PeerMap::new(),
        vec![conn(5)],
        None,
    );
    let attempts = jp.join_attempts;
    let (t, actions) = jp.handle_timeout(jp.join_token + 1000);
    assert!(matches!(t, Transition::Stay));
    assert_eq!(actions, vec![]);
    assert_eq!(jp.join_attempts, attempts);
}

// The matching timeout token cancels the active bootstrap probe and retries.
#[test]
fn bootstrap_timeout_retries() {
    let (mut peer, _) = BootstrappingPeer::new(FullId::from_name(XorName(1)), 8, Timer::new());
    let proxy = conn(5);
    let _ = peer.handle_bootstrapped_to(proxy);
    let (_, token) = peer.bootstrap_connection.unwrap();
    let (t, actions) = peer.handle_timeout(token);
    assert!(matches!(t, Transition::Stay));
    assert_eq!(
        actions,
        vec![Action::DisconnectFrom(PeerAddr(5)), Action::Bootstrap]
    );
    assert_eq!(peer.bootstrap_connection, None);
}

// A `Join` answer whose prefix covers our address keeps our identity.
#[test]
fn join_response_matching_prefix_keeps_identity() {
    let our_id = FullId::from_name(XorName(1));
    let (mut peer, _) = BootstrappingPeer::new(our_id, 8, Timer::new());
    let msg = DirectMessage::BootstrapResponse(BootstrapResponse::Join {
        prefix: Prefix::default(),
        conn_infos: vec![conn(9)],
    });
    let sender = *FullId::from_name(XorName(77)).public_id();
    let fresh = FullId::from_name(XorName(500));
    let (t, actions) = peer.handle_direct_message(msg, sender, fresh).unwrap();
    assert_eq!(actions, vec![]);
    match t {
        Transition::IntoJoining { conn_infos, relocate_payload } => {
            assert_eq!(conn_infos, vec![conn(9)]);
            assert_eq!(relocate_payload, None);
        }
        _ => panic!("a join answer must move the peer towards joining"),
    }
    assert_eq!(*peer.full_id(), our_id);
}

// A `Join` answer whose prefix does not cover our address regenerates the
// identity into that prefix.
#[test]
fn join_response_foreign_prefix_regenerates_identity() {
    let our_id = FullId::from_name(XorName(1));
    let (mut peer, _) = BootstrappingPeer::new(our_id, 8, Timer::new());
    let prefix = Prefix::new(1, 1);
    let msg = DirectMessage::BootstrapResponse(BootstrapResponse::Join {
        prefix,
        conn_infos: vec![conn(9)],
    });
    let sender = *FullId::from_name(XorName(77)).public_id();
    let fresh = FullId::from_name(XorName(5));
    let (t, _) = peer.handle_direct_message(msg, sender, fresh).unwrap();
    assert!(matches!(t, Transition::IntoJoining { .. }));
    let expected = FullId::from_name(XorName((1u64 << 63) | 5));
    assert_eq!(*peer.full_id(), expected);
    assert_ne!(*peer.full_id(), our_id);
}

// A `Rebootstrap` answer drops the active probe and connects to the new set
// of peers.
#[test]
fn rebootstrap_response_reconnects() {
    let (mut peer, _) = BootstrappingPeer::new(FullId::from_name(XorName(1)), 8, Timer::new());
    let proxy = conn(5);
    let _ = peer.handle_bootstrapped_to(proxy);
    let msg = DirectMessage::BootstrapResponse(BootstrapResponse::Rebootstrap(vec![
        conn(6),
        conn(8),
    ]));
    let sender = *FullId::from_name(XorName(77)).public_id();
    let fresh = FullId::from_name(XorName(500));
    let (t, actions) = peer.handle_direct_message(msg, sender, fresh).unwrap();
    assert!(matches!(t, Transition::Stay));
    assert_eq!(
        actions,
        vec![
            Action::DisconnectFrom(PeerAddr(5)),
            Action::ConnectTo(conn(6)),
            Action::ConnectTo(conn(8)),
        ]
    );
    assert_eq!(peer.bootstrap_connection, None);
    assert_eq!(peer.nodes_to_await, vec![PeerAddr(6), PeerAddr(8)]);
}

// A relocating node probes the first given contact, drops the others, and
// binds its regenerated identity to the old one.
#[test]
fn relocation_binds_old_and_new_identity() {
    let old_id = FullId::from_name(XorName(1));
    let details = SignedRelocateDetails {
        content: RelocateDetails {
            pub_id: *old_id.public_id(),
            destination: XorName(1u64 << 63),
            age: 5,
        },
        signature: Signature { signer: XorName(123), over: 9 },
    };
    let (mut peer, actions) =
        BootstrappingPeer::relocate(old_id, 8, Timer::new(), vec![conn(5), conn(6)], details);
    assert_eq!(
        actions,
        vec![
            Action::SendDirect {
                to: conn(5),
                msg: DirectMessage::BootstrapRequest(XorName(1u64 << 63)),
            },
            Action::DisconnectFrom(PeerAddr(6)),
        ]
    );

    // The proxy points us at the destination section; our identity moves
    // into its prefix and the relocation payload signs the new identity with
    // the old one.
    let prefix = Prefix::new(1, 1);
    let msg = DirectMessage::BootstrapResponse(BootstrapResponse::Join {
        prefix,
        conn_infos: vec![conn(9)],
    });
    let sender = *FullId::from_name(XorName(77)).public_id();
    let fresh = FullId::from_name(XorName(5));
    let (t, _) = peer.handle_direct_message(msg, sender, fresh).unwrap();
    let new_name = XorName((1u64 << 63) | 5);
    assert_eq!(*peer.full_id(), FullId::from_name(new_name));
    match t {
        Transition::IntoJoining { relocate_payload, .. } => {
            let payload = relocate_payload.unwrap();
            assert_eq!(payload.details, details);
            assert_eq!(
                payload.signature_of_new_id_with_old_id,
                Signature { signer: XorName(1), over: new_name.0 }
            );
        }
        _ => panic!("a join answer must move the peer towards joining"),
    }
}

fn approval_msg(our_name: XorName, verified: bool) -> HopMessage {
    let gen = GenesisPfxInfo {
        first_info: EldersInfo::new(Vec::new(), Prefix::default(), 1),
    };
    HopMessage {
        content: SignedRoutingMessage {
            content: RoutingMessage {
                src: Authority::PrefixSection { prefix: Prefix::default() },
                dst: Authority::Node { name: our_name },
                content: MessageContent::NodeApproval(gen),
            },
            verified,
        },
    }
}

// The first sighting of `NodeApproval` addressed to us moves us towards the
// adult state, carrying the message backlog.
#[test]
fn node_approval_makes_adult() {
    let full_id = FullId::from_name(XorName(42));
    let (mut jp, _) = JoiningPeer::new(
        full_id,
        8,
        Timer::new(),
        PeerMap::new(),
        vec![conn(5)],
        None,
    );

    // A routed message not addressed to us goes to the backlog for replay.
    let backlogged = HopMessage {
        content: SignedRoutingMessage {
            content: RoutingMessage {
                src: Authority::Node { name: XorName(9) },
                dst: Authority::Node { name: XorName(42) },
                content: MessageContent::UserMessage(vec![1, 2, 3]),
            },
            verified: true,
        },
    };
    let t = jp.handle_hop_message(backlogged).unwrap();
    assert!(matches!(t, Transition::Stay));
    assert_eq!(jp.msg_backlog.len(), 1);

    let t = jp.handle_hop_message(approval_msg(XorName(42), true)).unwrap();
    let gen = match t {
        Transition::IntoAdult { gen_pfx_info } => gen_pfx_info,
        _ => panic!("the approval must move the peer towards the adult state"),
    };
    assert_eq!(gen.first_info.version, 1);

    let state = jp.into_adult(gen).unwrap();
    match state {
        State::Adult(a) => {
            assert_eq!(*a.full_id.public_id(), *FullId::from_name(XorName(42)).public_id());
            assert_eq!(a.msg_backlog.len(), 1);
            assert_eq!(a.chain.incomplete_events(), vec![]);
        }
        _ => panic!("approval must land in the adult state"),
    }
}

// A routed message that does not name us as destination is queued in the
// backlog for later replay once Adult; a duplicate of it is not queued
// twice.
#[test]
fn unaddressed_message_is_backlogged() {
    let (mut jp, _) = JoiningPeer::new(
        FullId::from_name(XorName(42)),
        8,
        Timer::new(),
        PeerMap::new(),
        vec![conn(5)],
        None,
    );
    let elsewhere = || HopMessage {
        content: SignedRoutingMessage {
            content: RoutingMessage {
                src: Authority::Node { name: XorName(9) },
                dst: Authority::Node { name: XorName(1000) },
                content: MessageContent::UserMessage(vec![6, 7]),
            },
            verified: true,
        },
    };
    let t = jp.handle_hop_message(elsewhere()).unwrap();
    assert!(matches!(t, Transition::Stay));
    assert_eq!(jp.msg_backlog.len(), 1);
    assert_eq!(jp.msg_backlog[0], elsewhere().content);

    let t = jp.handle_hop_message(elsewhere()).unwrap();
    assert!(matches!(t, Transition::Stay));
    assert_eq!(jp.msg_backlog.len(), 1);

    // The backlog rides into the adult state for replay.
    let t = jp.handle_hop_message(approval_msg(XorName(42), true)).unwrap();
    let gen = match t {
        Transition::IntoAdult { gen_pfx_info } => gen_pfx_info,
        _ => panic!("the approval must move the peer towards the adult state"),
    };
    match jp.into_adult(gen).unwrap() {
        State::Adult(a) => {
            assert_eq!(a.msg_backlog, vec![elsewhere().content]);
        }
        _ => panic!("approval must land in the adult state"),
    }
}

// A duplicate routed message is filtered: the second sighting has no effect.
#[test]
fn duplicate_hop_message_is_filtered() {
    let (mut jp, _) = JoiningPeer::new(
        FullId::from_name(XorName(42)),
        8,
        Timer::new(),
        PeerMap::new(),
        vec![conn(5)],
        None,
    );
    let msg = || HopMessage {
        content: SignedRoutingMessage {
            content: RoutingMessage {
                src: Authority::Node { name: XorName(9) },
                dst: Authority::Node { name: XorName(42) },
                content: MessageContent::UserMessage(vec![4, 5]),
            },
            verified: true,
        },
    };
    let _ = jp.handle_hop_message(msg()).unwrap();
    assert_eq!(jp.msg_backlog.len(), 1);
    let t = jp.handle_hop_message(msg()).unwrap();
    assert!(matches!(t, Transition::Stay));
    assert_eq!(jp.msg_backlog.len(), 1);
}

// A message addressed to us that fails verification is dropped with an
// error.
#[test]
fn unverified_message_is_rejected() {
    let (mut jp, _) = JoiningPeer::new(
        FullId::from_name(XorName(42)),
        8,
        Timer::new(),
        PeerMap::new(),
        vec![conn(5)],
        None,
    );
    let result = jp.handle_hop_message(approval_msg(XorName(42), false));
    assert_eq!(
        match result {
            Err(e) => e,
            Ok(_) => panic!("an unverifiable approval must be rejected"),
        },
        RoutingError::FailedSignature
    );
    assert_eq!(jp.msg_backlog.len(), 0);
}

// Duplicate contacts in a `Rebootstrap` answer are awaited once each, but
// every contact is connected to.
#[test]
fn rebootstrap_response_deduplicates_awaited_addresses() {
    let (mut peer, _) = BootstrappingPeer::new(FullId::from_name(XorName(1)), 8, Timer::new());
    let msg = DirectMessage::BootstrapResponse(BootstrapResponse::Rebootstrap(vec![
        conn(6),
        conn(8),
        conn(6),
    ]));
    let sender = *FullId::from_name(XorName(77)).public_id();
    let fresh = FullId::from_name(XorName(500));
    let (_, actions) = peer.handle_direct_message(msg, sender, fresh).unwrap();
    assert_eq!(
        actions,
        vec![
            Action::ConnectTo(conn(6)),
            Action::ConnectTo(conn(8)),
            Action::ConnectTo(conn(6)),
        ]
    );
    assert_eq!(peer.nodes_to_await, vec![PeerAddr(6), PeerAddr(8)]);
}

// A wait too long for the clock saturates at the clock's end and still
// expires once the clock saturates too.
#[test]
fn timer_deadline_saturates() {
    let mut timer = Timer::new();
    timer.elapse(10);
    let token = timer.schedule(u64::MAX);
    timer.elapse(u64::MAX);
    assert_eq!(timer.now, u64::MAX);
    assert_eq!(timer.get_timed_out_tokens(), vec![token]);
}

// Expired timer tokens come out once, in schedule order; live ones stay.
#[test]
fn timed_out_tokens_are_collected_once() {
    let (mut jp, _) = JoiningPeer::new(
        FullId::from_name(XorName(1)),
        8,
        Timer::new(),
        PeerMap::new(),
        vec![],
        None,
    );
    // The join timeout (120 s) is outstanding; schedule a shorter wait.
    let short = jp.timer().schedule(20);
    jp.timer().elapse(30);
    assert_eq!(jp.get_timed_out_tokens(), vec![short]);
    assert_eq!(jp.get_timed_out_tokens(), vec![]);
    jp.timer().elapse(100);
    assert_eq!(jp.get_timed_out_tokens(), vec![jp.join_token]);
}
