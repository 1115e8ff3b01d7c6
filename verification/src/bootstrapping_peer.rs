use vstd::prelude::*;
use crate::error::{InterfaceError, RoutingError};
use crate::event::{Action, Event};
use crate::id::{FullId, PublicId, Signature};
use crate::joining_peer::JoiningPeer;
use crate::messages::{BootstrapResponse, DirectMessage, HopMessage, RelocatePayload,
    RoutingMessage, SignedRelocateDetails};
use crate::peer_map::{spec_connect, spec_disconnect, ConnectionInfo, PeerAddr, PeerMap};
use crate::routing_table::{Authority, Prefix};
use crate::state_machine::{State, Transition};
use crate::timer::{spec_deadline, Timer};
use crate::xor_name::XorName;

verus! {

/// Seconds after which a bootstrap attempt is cancelled and possibly
/// retried.
pub const BOOTSTRAP_TIMEOUT: u64 = 20;

/// Whether the sequence holds the address.
pub open spec fn contains_paddr(s: Seq<PeerAddr>, a: PeerAddr) -> bool {
    exists|i: int| 0 <= i < s.len() && s[i] == a
}

/// The index of the address in the sequence.
pub open spec fn paddr_index(s: Seq<PeerAddr>, a: PeerAddr) -> int {
    choose|i: int| 0 <= i < s.len() && s[i] == a
}

/// The sequence with the address removed, if it is there.
pub open spec fn spec_remove_paddr(s: Seq<PeerAddr>, a: PeerAddr) -> Seq<PeerAddr> {
    if contains_paddr(s, a) {
        s.remove(paddr_index(s, a))
    } else {
        s
    }
}

/// No address appears twice.
pub open spec fn distinct_paddrs(s: Seq<PeerAddr>) -> bool {
    forall|i: int, j: int| 0 <= i < j < s.len() ==> s[i] != s[j]
}

/// The addresses of the contacts, first occurrence each.
pub open spec fn spec_dedup_addrs(s: Seq<ConnectionInfo>) -> Seq<PeerAddr>
    decreases s.len(),
{
    if s.len() == 0 {
        Seq::empty()
    } else {
        let rest = spec_dedup_addrs(s.drop_last());
        if contains_paddr(rest, s.last().peer_addr) {
            rest
        } else {
            rest.push(s.last().peer_addr)
        }
    }
}

/// The disconnects issued for every contact whose address is not the kept
/// one, in contact order.
pub open spec fn spec_extra_disconnects(s: Seq<ConnectionInfo>, kept: PeerAddr) -> Seq<Action>
    decreases s.len(),
{
    if s.len() == 0 {
        Seq::empty()
    } else {
        let rest = spec_extra_disconnects(s.drop_last(), kept);
        if s.last().peer_addr != kept {
            rest.push(Action::DisconnectFrom(s.last().peer_addr))
        } else {
            rest
        }
    }
}

/// Remove the address from the vector, if it is there.
fn remove_paddr(v: &mut Vec<PeerAddr>, addr: PeerAddr)
    requires
        distinct_paddrs(old(v)@),
    ensures
        distinct_paddrs(final(v)@),
        final(v)@ == spec_remove_paddr(old(v)@, addr),
{
    let n = v.len();
    let mut i: usize = 0;
    while i < n
        invariant
            n == v@.len(),
            i <= n,
            v == old(v),
            distinct_paddrs(v@),
            forall|m: int| 0 <= m < i ==> v@[m] != addr,
        decreases n - i,
    {
        if v[i] == addr {
            let ghost s0 = v@;
            proof {
                assert(contains_paddr(s0, addr));
                let j = paddr_index(s0, addr);
                assert(0 <= j < s0.len() && s0[j] == addr);
                if j != i as int {
                    assert(false);
                }
            }
            v.remove(i);
            proof {
                s0.remove_ensures(i as int);
                assert forall|a: int, b: int| 0 <= a < b < v@.len() implies v@[a] != v@[b] by {
                    let a0 = if a < i { a } else { a + 1 };
                    let b0 = if b < i { b } else { b + 1 };
                    assert(v@[a] == s0[a0]);
                    assert(v@[b] == s0[b0]);
                }
            }
            return ;
        }
        i += 1;
    }
    proof {
        if contains_paddr(v@, addr) {
            let m = choose|m: int| 0 <= m < v@.len() && v@[m] == addr;
            assert(v@[m] != addr);
        }
    }
}

/// State of a node while bootstrapping: it holds no place in any section yet
/// and probes at most one bootstrap target at a time.
#[derive(Debug)]
pub struct BootstrappingPeer {
    /// Addresses we still await a connection from.
    pub nodes_to_await: Vec<PeerAddr>,
    /// The one actively probed target and the token of its timeout.
    pub bootstrap_connection: Option<(ConnectionInfo, u64)>,
    pub full_id: FullId,
    pub min_section_size: usize,
    pub peer_map: PeerMap,
    pub timer: Timer,
    /// Present when this node is being relocated into another section.
    pub relocate_details: Option<SignedRelocateDetails>,
}

/// The effect of sending a bootstrap request towards `dst`, starting from
/// peer map contents `pm0`: with an active probe already adopted, a probe of
/// a different peer is dropped; with none, `dst` becomes the active probe, a
/// timeout is scheduled, and the request goes out. The destination named in
/// the request is the relocation target when one is carried, our own address
/// otherwise.
pub open spec fn spec_bootstrap_request_effect(
    pre: BootstrappingPeer,
    dst: ConnectionInfo,
    post: BootstrappingPeer,
    actions: Seq<Action>,
    pm0: Seq<ConnectionInfo>,
) -> bool {
    &&& post.full_id == pre.full_id
    &&& post.min_section_size == pre.min_section_size
    &&& post.relocate_details == pre.relocate_details
    &&& post.nodes_to_await@ == spec_remove_paddr(pre.nodes_to_await@, dst.peer_addr)
    &&& match pre.bootstrap_connection {
        Some((conn, tok)) => {
            &&& post.bootstrap_connection == pre.bootstrap_connection
            &&& post.timer == pre.timer
            &&& post.peer_map@ == pm0
            &&& actions == if conn == dst {
                Seq::<Action>::empty()
            } else {
                seq![Action::DisconnectFrom(dst.peer_addr)]
            }
        },
        None => {
            &&& post.bootstrap_connection == Some((dst, pre.timer.next_token))
            &&& post.timer.next_token == pre.timer.next_token + 1
            &&& post.timer.now == pre.timer.now
            &&& post.timer.schedules@ == pre.timer.schedules@.push(
                (pre.timer.next_token, spec_deadline(pre.timer.now, BOOTSTRAP_TIMEOUT)),
            )
            &&& post.peer_map@ == spec_connect(pm0, dst)
            &&& actions == seq![
                Action::SendDirect {
                    to: dst,
                    msg: DirectMessage::BootstrapRequest(pre.spec_destination()),
                },
            ]
        },
    }
}

impl BootstrappingPeer {
    pub open spec fn wf(&self) -> bool {
        &&& self.peer_map.wf()
        &&& self.timer.wf()
        &&& distinct_paddrs(self.nodes_to_await@)
    }

    /// The address a bootstrap request asks to join near: the relocation
    /// target when we carry one, our own address otherwise.
    pub open spec fn spec_destination(&self) -> XorName {
        match self.relocate_details {
            Some(details) => details.content.destination,
            None => self.full_id.public_id.0,
        }
    }

    /// Start bootstrapping as a node joining the network for the first time
    /// or rejoining it. Asks the link layer to probe its known contacts.
    pub fn new(full_id: FullId, min_section_size: usize, timer: Timer) -> (r: (
        BootstrappingPeer,
        Vec<Action>,
    ))
        requires
            timer.wf(),
        ensures
            r.0.wf(),
            r.0.nodes_to_await@ == Seq::<PeerAddr>::empty(),
            r.0.bootstrap_connection is None,
            r.0.full_id == full_id,
            r.0.min_section_size == min_section_size,
            r.0.peer_map@ == Seq::<ConnectionInfo>::empty(),
            r.0.timer == timer,
            r.0.relocate_details is None,
            r.1@ == seq![Action::Bootstrap],
    {
        let nodes_to_await: Vec<PeerAddr> = Vec::new();
        let mut actions: Vec<Action> = Vec::new();
        actions.push(Action::Bootstrap);
        proof {
            assert(nodes_to_await@ =~= Seq::<PeerAddr>::empty());
            assert(actions@ =~= seq![Action::Bootstrap]);
        }
        (
            BootstrappingPeer {
                nodes_to_await,
                bootstrap_connection: None,
                full_id,
                min_section_size,
                peer_map: PeerMap::new(),
                timer,
                relocate_details: None,
            },
            actions,
        )
    }

    /// Start bootstrapping as a node that is being relocated into another
    /// section: adopt the first given contact as the active probe, send it
    /// the bootstrap request towards the relocation target, and drop the
    /// other contacts.
    pub fn relocate(
        full_id: FullId,
        min_section_size: usize,
        timer: Timer,
        conn_infos: Vec<ConnectionInfo>,
        relocate_details: SignedRelocateDetails,
    ) -> (r: (BootstrappingPeer, Vec<Action>))
        requires
            timer.wf(),
            timer.next_token < u64::MAX,
        ensures
            r.0.wf(),
            r.0.full_id == full_id,
            r.0.min_section_size == min_section_size,
            r.0.relocate_details == Some(relocate_details),
            r.0.nodes_to_await@ == Seq::<PeerAddr>::empty(),
            conn_infos@.len() == 0 ==> r.0.bootstrap_connection is None && r.0.peer_map@ == Seq::<
                ConnectionInfo,
            >::empty() && r.0.timer == timer && r.1@ == Seq::<Action>::empty(),
            conn_infos@.len() > 0 ==> {
                &&& r.0.bootstrap_connection == Some((conn_infos@[0], timer.next_token))
                &&& r.0.timer.next_token == timer.next_token + 1
                &&& r.0.timer.now == timer.now
                &&& r.0.timer.schedules@ == timer.schedules@.push(
                    (timer.next_token, spec_deadline(timer.now, BOOTSTRAP_TIMEOUT)),
                )
                &&& r.0.peer_map@ == seq![conn_infos@[0]]
                &&& r.1@ == seq![
                    Action::SendDirect {
                        to: conn_infos@[0],
                        msg: DirectMessage::BootstrapRequest(
                            relocate_details.content.destination,
                        ),
                    },
                ] + spec_extra_disconnects(
                    conn_infos@.subrange(1, conn_infos@.len() as int),
                    conn_infos@[0].peer_addr,
                )
            },
    {
        let nodes_to_await: Vec<PeerAddr> = Vec::new();
        proof {
            assert(nodes_to_await@ =~= Seq::<PeerAddr>::empty());
        }
        let mut node = BootstrappingPeer {
            nodes_to_await,
            bootstrap_connection: None,
            full_id,
            min_section_size,
            peer_map: PeerMap::new(),
            timer,
            relocate_details: Some(relocate_details),
        };
        let mut actions: Vec<Action> = Vec::new();
        let n = conn_infos.len();
        if n == 0 {
            proof {
                assert(actions@ =~= Seq::<Action>::empty());
            }
            return (node, actions);
        }
        let first = conn_infos[0];
        let token = node.timer.schedule(BOOTSTRAP_TIMEOUT);
        node.bootstrap_connection = Some((first, token));
        let destination = relocate_details.content.destination;
        actions.push(Action::SendDirect { to: first, msg: DirectMessage::BootstrapRequest(destination) });
        node.peer_map.connect(first);
        proof {
            assert(node.peer_map@ =~= seq![conn_infos@[0]]);
        }
        let ghost head = actions@;
        let mut i: usize = 1;
        while i < n
            invariant
                n == conn_infos@.len(),
                1 <= i <= n,
                head == seq![
                    Action::SendDirect {
                        to: conn_infos@[0],
                        msg: DirectMessage::BootstrapRequest(
                            relocate_details.content.destination,
                        ),
                    },
                ],
                first == conn_infos@[0],
                actions@ == head + spec_extra_disconnects(
                    conn_infos@.subrange(1, i as int),
                    conn_infos@[0].peer_addr,
                ),
            decreases n - i,
        {
            let ghost prefix = conn_infos@.subrange(1, i as int);
            let ghost prefix1 = conn_infos@.subrange(1, i + 1 as int);
            proof {
                assert(prefix1.drop_last() =~= prefix);
                assert(prefix1.last() == conn_infos@[i as int]);
            }
            if conn_infos[i].peer_addr != first.peer_addr {
                actions.push(Action::DisconnectFrom(conn_infos[i].peer_addr));
            }
            i += 1;
        }
        proof {
            assert(conn_infos@.subrange(1, n as int) =~= conn_infos@.subrange(
                1,
                conn_infos@.len() as int,
            ));
        }
        (node, actions)
    }

    /// Hand everything over to the joining state, with the contacts of the
    /// section to join.
    pub fn into_joining(
        self,
        conn_infos: Vec<ConnectionInfo>,
        relocate_payload: Option<RelocatePayload>,
    ) -> (r: Result<(State, Vec<Action>), RoutingError>)
        requires
            self.wf(),
            self.timer.next_token < u64::MAX,
        ensures
            r matches Ok((s, actions)) && s matches State::JoiningPeer(jp) && {
                &&& jp.wf()
                &&& jp.full_id == self.full_id
                &&& jp.min_section_size == self.min_section_size
                &&& jp.peer_map@ == self.peer_map@
                &&& jp.conn_infos@ == conn_infos@
                &&& jp.relocate_payload == relocate_payload
                &&& jp.join_attempts == 0
                &&& jp.join_token == self.timer.next_token
                &&& jp.msg_backlog@.len() == 0
                &&& actions@ == crate::joining_peer::spec_join_requests(
                    conn_infos@,
                    relocate_payload,
                )
            },
    {
        let (jp, actions) = JoiningPeer::new(
            self.full_id,
            self.min_section_size,
            self.timer,
            self.peer_map,
            conn_infos,
            relocate_payload,
        );
        Ok((State::JoiningPeer(jp), actions))
    }

    /// Send a bootstrap request to `dst`, unless another probe is already
    /// active, in which case a probe of a different peer is dropped.
    fn send_bootstrap_request(&mut self, dst: ConnectionInfo) -> (actions: Vec<Action>)
        requires
            old(self).wf(),
            old(self).timer.next_token < u64::MAX,
        ensures
            final(self).wf(),
            spec_bootstrap_request_effect(
                *old(self),
                dst,
                *final(self),
                actions@,
                old(self).peer_map@,
            ),
    {
        remove_paddr(&mut self.nodes_to_await, dst.peer_addr);
        let mut actions: Vec<Action> = Vec::new();
        match &self.bootstrap_connection {
            Some((bootstrap_dst, _token)) => {
                if !(bootstrap_dst.peer_addr == dst.peer_addr) {
                    actions.push(Action::DisconnectFrom(dst.peer_addr));
                    proof {
                        assert(actions@ =~= seq![Action::DisconnectFrom(dst.peer_addr)]);
                    }
                } else {
                    proof {
                        assert(actions@ =~= Seq::<Action>::empty());
                    }
                }
                actions
            },
            None => {
                let token = self.timer.schedule(BOOTSTRAP_TIMEOUT);
                self.bootstrap_connection = Some((dst, token));
                let destination = match &self.relocate_details {
                    Some(details) => details.content().destination,
                    None => self.full_id.public_id().name(),
                };
                actions.push(
                    Action::SendDirect { to: dst, msg: DirectMessage::BootstrapRequest(destination) },
                );
                self.peer_map.connect(dst);
                proof {
                    assert(actions@ =~= seq![
                        Action::SendDirect {
                            to: dst,
                            msg: DirectMessage::BootstrapRequest(old(self).spec_destination()),
                        },
                    ]);
                }
                actions
            },
        }
    }

    /// Decide which section to join: when our address does not lie in the
    /// section's prefix, take on the fresh identity forced into that prefix;
    /// when we carry relocation details, bind the new identity to the old one.
    fn join_section(
        &mut self,
        prefix: Prefix,
        conn_infos: Vec<ConnectionInfo>,
        fresh: FullId,
    ) -> (r: Result<Transition, RoutingError>)
        requires
            old(self).wf(),
            prefix.wf(),
        ensures
            final(self).wf(),
            ({
                let new_id = if prefix.spec_matches(old(self).full_id.public_id.0) {
                    old(self).full_id
                } else {
                    FullId { public_id: PublicId(prefix.spec_substituted(fresh.public_id.0)) }
                };
                &&& final(self).full_id == new_id
                &&& prefix.spec_matches(new_id.public_id.0)
                &&& final(self).relocate_details is None
                &&& final(self).nodes_to_await@ == old(self).nodes_to_await@
                &&& final(self).bootstrap_connection == old(self).bootstrap_connection
                &&& final(self).peer_map@ == old(self).peer_map@
                &&& final(self).timer == old(self).timer
                &&& final(self).min_section_size == old(self).min_section_size
                &&& r matches Ok(Transition::IntoJoining { conn_infos: ci, relocate_payload: rp })
                    && ci@ == conn_infos@ && rp == match old(self).relocate_details {
                    Some(details) => Some(
                        RelocatePayload {
                            details,
                            signature_of_new_id_with_old_id: Signature {
                                signer: old(self).full_id.public_id.0,
                                over: new_id.public_id.0.0,
                            },
                        },
                    ),
                    None => None,
                }
            }),
    {
        let old_full_id = self.full_id;
        if !prefix.matches(self.full_id.public_id().name()) {
            let new_full_id = FullId::from_name(prefix.substituted(fresh.public_id().name()));
            self.full_id = new_full_id;
        }
        let relocate_payload = match self.relocate_details.take() {
            Some(details) => {
                let payload = match RelocatePayload::new(
                    details,
                    self.full_id.public_id(),
                    &old_full_id,
                ) {
                    Ok(p) => p,
                    Err(e) => {
                        return Err(e);
                    },
                };
                Some(payload)
            },
            None => None,
        };
        Ok(Transition::IntoJoining { conn_infos, relocate_payload })
    }

    /// Drop the active probe, remember the new section's contacts as awaited,
    /// and connect to each of them.
    fn reconnect_to_new_section(&mut self, new_conn_infos: Vec<ConnectionInfo>) -> (actions: Vec<
        Action,
    >)
        requires
            old(self).wf(),
        ensures
            final(self).wf(),
            final(self).bootstrap_connection is None,
            final(self).nodes_to_await@ == spec_dedup_addrs(new_conn_infos@),
            final(self).peer_map@ == old(self).peer_map@,
            final(self).timer == old(self).timer,
            final(self).full_id == old(self).full_id,
            final(self).min_section_size == old(self).min_section_size,
            final(self).relocate_details == old(self).relocate_details,
            actions@ == (match old(self).bootstrap_connection {
                Some((conn, tok)) => seq![Action::DisconnectFrom(conn.peer_addr)],
                None => Seq::<Action>::empty(),
            }) + new_conn_infos@.map_values(|c: ConnectionInfo| Action::ConnectTo(c)),
    {
        let mut actions: Vec<Action> = Vec::new();
        match self.bootstrap_connection.take() {
            Some((conn_info, _token)) => {
                actions.push(Action::DisconnectFrom(conn_info.peer_addr));
            },
            None => {},
        }
        let ghost head = actions@;
        let n = new_conn_infos.len();
        let mut awaited: Vec<PeerAddr> = Vec::new();
        let mut i: usize = 0;
        while i < n
            invariant
                n == new_conn_infos@.len(),
                i <= n,
                awaited@ == spec_dedup_addrs(new_conn_infos@.subrange(0, i as int)),
                distinct_paddrs(awaited@),
                actions@ == head + new_conn_infos@.subrange(0, i as int).map_values(
                    |c: ConnectionInfo| Action::ConnectTo(c),
                ),
            decreases n - i,
        {
            let ghost prefix = new_conn_infos@.subrange(0, i as int);
            let ghost prefix1 = new_conn_infos@.subrange(0, i + 1 as int);
            proof {
                assert(prefix1.drop_last() =~= prefix);
                assert(prefix1.last() == new_conn_infos@[i as int]);
            }
            let addr = new_conn_infos[i].peer_addr;
            let mut seen = false;
            let m = awaited.len();
            let mut k: usize = 0;
            while k < m
                invariant
                    m == awaited@.len(),
                    k <= m,
                    seen == exists|t: int| 0 <= t < k && awaited@[t] == addr,
                decreases m - k,
            {
                if awaited[k] == addr {
                    seen = true;
                }
                k += 1;
            }
            proof {
                assert(seen == contains_paddr(awaited@, addr));
            }
            if !seen {
                awaited.push(addr);
                proof {
                    assert forall|a: int, b: int|
                        0 <= a < b < awaited@.len() implies awaited@[a] != awaited@[b] by {
                        if b == awaited@.len() - 1 {
                            assert(!contains_paddr(awaited@.drop_last(), addr));
                            assert(awaited@.drop_last()[a] == awaited@[a]);
                        }
                    }
                }
            }
            actions.push(Action::ConnectTo(new_conn_infos[i]));
            proof {
                assert(actions@ =~= head + prefix1.map_values(
                    |c: ConnectionInfo| Action::ConnectTo(c),
                ));
            }
            i += 1;
        }
        proof {
            assert(new_conn_infos@.subrange(0, n as int) =~= new_conn_infos@);
        }
        self.nodes_to_await = awaited;
        actions
    }

    /// Drop the active probe's connection, if one is adopted.
    fn disconnect_from_bootstrap_proxy(&mut self) -> (actions: Vec<Action>)
        requires
            old(self).wf(),
        ensures
            final(self).wf(),
            final(self).bootstrap_connection is None,
            final(self).nodes_to_await@ == old(self).nodes_to_await@,
            final(self).peer_map@ == old(self).peer_map@,
            final(self).timer == old(self).timer,
            final(self).full_id == old(self).full_id,
            final(self).min_section_size == old(self).min_section_size,
            final(self).relocate_details == old(self).relocate_details,
            actions@ == (match old(self).bootstrap_connection {
                Some((conn, tok)) => seq![Action::DisconnectFrom(conn.peer_addr)],
                None => Seq::<Action>::empty(),
            }),
    {
        let mut actions: Vec<Action> = Vec::new();
        match self.bootstrap_connection.take() {
            Some((conn_info, _token)) => {
                actions.push(Action::DisconnectFrom(conn_info.peer_addr));
                proof {
                    assert(actions@ =~= seq![Action::DisconnectFrom(conn_info.peer_addr)]);
                }
            },
            None => {
                proof {
                    assert(actions@ =~= Seq::<Action>::empty());
                }
            },
        }
        actions
    }

    /// Retry the bootstrap, but only when no awaited connection is left:
    /// otherwise another connection may still succeed.
    fn rebootstrap(&mut self) -> (actions: Vec<Action>)
        requires
            old(self).wf(),
        ensures
            final(self).wf(),
            old(self).nodes_to_await@.len() > 0 ==> *final(self) == *old(self) && actions@ == Seq::<
                Action,
            >::empty(),
            old(self).nodes_to_await@.len() == 0 ==> {
                &&& final(self).bootstrap_connection is None
                &&& final(self).nodes_to_await@ == old(self).nodes_to_await@
                &&& final(self).peer_map@ == old(self).peer_map@
                &&& final(self).timer == old(self).timer
                &&& final(self).full_id == old(self).full_id
                &&& final(self).min_section_size == old(self).min_section_size
                &&& final(self).relocate_details == old(self).relocate_details
                &&& actions@ == (match old(self).bootstrap_connection {
                    Some((conn, tok)) => seq![Action::DisconnectFrom(conn.peer_addr)],
                    None => Seq::<Action>::empty(),
                }) + seq![Action::Bootstrap]
            },
    {
        if self.nodes_to_await.len() > 0 {
            let actions: Vec<Action> = Vec::new();
            proof {
                assert(actions@ =~= Seq::<Action>::empty());
            }
            return actions;
        }
        let mut actions = self.disconnect_from_bootstrap_proxy();
        actions.push(Action::Bootstrap);
        proof {
            assert(actions@ =~= (match old(self).bootstrap_connection {
                Some((conn, tok)) => seq![Action::DisconnectFrom(conn.peer_addr)],
                None => Seq::<Action>::empty(),
            }) + seq![Action::Bootstrap]);
        }
        actions
    }

    /// A timer fired. Only the active probe's own token cancels it; a stale
    /// token has no observable effect.
    pub fn handle_timeout(&mut self, token: u64) -> (r: (Transition, Vec<Action>))
        requires
            old(self).wf(),
        ensures
            final(self).wf(),
            r.0 is Stay,
            (match old(self).bootstrap_connection {
                Some((conn, tok)) => tok == token,
                None => false,
            }) ==> {
                &&& final(self).bootstrap_connection is None
                &&& final(self).nodes_to_await@ == old(self).nodes_to_await@
                &&& final(self).peer_map@ == old(self).peer_map@
                &&& final(self).timer == old(self).timer
                &&& final(self).full_id == old(self).full_id
                &&& final(self).min_section_size == old(self).min_section_size
                &&& final(self).relocate_details == old(self).relocate_details
                &&& r.1@ == (match old(self).bootstrap_connection {
                    Some((conn, tok)) => seq![Action::DisconnectFrom(conn.peer_addr)],
                    None => Seq::<Action>::empty(),
                }) + if old(self).nodes_to_await@.len() == 0 {
                    seq![Action::Bootstrap]
                } else {
                    Seq::<Action>::empty()
                }
            },
            !(match old(self).bootstrap_connection {
                Some((conn, tok)) => tok == token,
                None => false,
            }) ==> *final(self) == *old(self) && r.1@ == Seq::<Action>::empty(),
    {
        let matches_token = match &self.bootstrap_connection {
            Some((_conn, tok)) => *tok == token,
            None => false,
        };
        if matches_token {
            let mut actions = self.disconnect_from_bootstrap_proxy();
            let mut more = self.rebootstrap();
            actions.append(&mut more);
            proof {
                if old(self).nodes_to_await@.len() == 0 {
                    assert(actions@ =~= (match old(self).bootstrap_connection {
                        Some((conn, tok)) => seq![Action::DisconnectFrom(conn.peer_addr)],
                        None => Seq::<Action>::empty(),
                    }) + seq![Action::Bootstrap]);
                } else {
                    assert(actions@ =~= (match old(self).bootstrap_connection {
                        Some((conn, tok)) => seq![Action::DisconnectFrom(conn.peer_addr)],
                        None => Seq::<Action>::empty(),
                    }) + Seq::<Action>::empty());
                    assert(actions@ =~= (match old(self).bootstrap_connection {
                        Some((conn, tok)) => seq![Action::DisconnectFrom(conn.peer_addr)],
                        None => Seq::<Action>::empty(),
                    }));
                }
            }
            (Transition::Stay, actions)
        } else {
            let actions: Vec<Action> = Vec::new();
            proof {
                assert(actions@ =~= Seq::<Action>::empty());
            }
            (Transition::Stay, actions)
        }
    }

    /// The link layer bootstrapped us to a peer: adopt it as the active probe
    /// if we have none; a second bootstrap notification is ignored.
    pub fn handle_bootstrapped_to(&mut self, conn_info: ConnectionInfo) -> (r: (
        Transition,
        Vec<Action>,
    ))
        requires
            old(self).wf(),
            old(self).timer.next_token < u64::MAX,
        ensures
            final(self).wf(),
            r.0 is Stay,
            old(self).bootstrap_connection is None ==> spec_bootstrap_request_effect(
                *old(self),
                conn_info,
                *final(self),
                r.1@,
                spec_connect(old(self).peer_map@, conn_info),
            ),
            old(self).bootstrap_connection is Some ==> {
                &&& final(self).peer_map@ == spec_connect(old(self).peer_map@, conn_info)
                &&& final(self).bootstrap_connection == old(self).bootstrap_connection
                &&& final(self).nodes_to_await@ == old(self).nodes_to_await@
                &&& final(self).timer == old(self).timer
                &&& final(self).full_id == old(self).full_id
                &&& final(self).min_section_size == old(self).min_section_size
                &&& final(self).relocate_details == old(self).relocate_details
                &&& r.1@ == Seq::<Action>::empty()
            },
    {
        self.peer_map.connect(conn_info);
        if self.bootstrap_connection.is_none() {
            let actions = self.send_bootstrap_request(conn_info);
            (Transition::Stay, actions)
        } else {
            let actions: Vec<Action> = Vec::new();
            proof {
                assert(actions@ =~= Seq::<Action>::empty());
            }
            (Transition::Stay, actions)
        }
    }

    /// The link layer could not bootstrap at all: surface `Terminated` and
    /// stop.
    pub fn handle_bootstrap_failure(&mut self) -> (r: (Transition, Vec<Action>))
        requires
            old(self).wf(),
        ensures
            final(self).wf(),
            *final(self) == *old(self),
            r.0 is Terminate,
            r.1@ == seq![Action::Emit(Event::Terminated)],
    {
        let mut actions: Vec<Action> = Vec::new();
        actions.push(Action::Emit(Event::Terminated));
        proof {
            assert(actions@ =~= seq![Action::Emit(Event::Terminated)]);
        }
        (Transition::Terminate, actions)
    }

    /// A connection we asked for succeeded: treat it as a bootstrap target.
    pub fn handle_connected_to(&mut self, conn_info: ConnectionInfo) -> (r: (
        Transition,
        Vec<Action>,
    ))
        requires
            old(self).wf(),
            old(self).timer.next_token < u64::MAX,
        ensures
            final(self).wf(),
            r.0 is Stay,
            spec_bootstrap_request_effect(
                *old(self),
                conn_info,
                *final(self),
                r.1@,
                old(self).peer_map@,
            ),
    {
        let actions = self.send_bootstrap_request(conn_info);
        (Transition::Stay, actions)
    }

    /// A connection failed or dropped: stop awaiting that address, and when
    /// it was the active probe, drop it and rebootstrap if nothing else is
    /// awaited.
    pub fn handle_connection_failure(&mut self, peer_addr: PeerAddr) -> (r: (
        Transition,
        Vec<Action>,
    ))
        requires
            old(self).wf(),
        ensures
            final(self).wf(),
            r.0 is Stay,
            final(self).nodes_to_await@ == spec_remove_paddr(old(self).nodes_to_await@, peer_addr),
            final(self).peer_map@ == spec_disconnect(old(self).peer_map@, peer_addr),
            final(self).timer == old(self).timer,
            final(self).full_id == old(self).full_id,
            final(self).min_section_size == old(self).min_section_size,
            final(self).relocate_details == old(self).relocate_details,
            (match old(self).bootstrap_connection {
                Some((conn, tok)) => conn.peer_addr == peer_addr,
                None => false,
            }) ==> final(self).bootstrap_connection is None && r.1@ == seq![
                Action::DisconnectFrom(peer_addr),
            ] + if spec_remove_paddr(old(self).nodes_to_await@, peer_addr).len() == 0 {
                seq![Action::Bootstrap]
            } else {
                Seq::<Action>::empty()
            },
            !(match old(self).bootstrap_connection {
                Some((conn, tok)) => conn.peer_addr == peer_addr,
                None => false,
            }) ==> final(self).bootstrap_connection == old(self).bootstrap_connection && r.1@
                == Seq::<Action>::empty(),
    {
        remove_paddr(&mut self.nodes_to_await, peer_addr);
        let _ = self.peer_map.disconnect(peer_addr);
        let was_proxy = match &self.bootstrap_connection {
            Some((conn, _tok)) => conn.peer_addr == peer_addr,
            None => false,
        };
        if was_proxy {
            let mut actions = self.disconnect_from_bootstrap_proxy();
            let mut more = self.rebootstrap();
            actions.append(&mut more);
            proof {
                if spec_remove_paddr(old(self).nodes_to_await@, peer_addr).len() == 0 {
                    assert(actions@ =~= seq![Action::DisconnectFrom(peer_addr)] + seq![
                        Action::Bootstrap,
                    ]);
                } else {
                    assert(actions@ =~= seq![Action::DisconnectFrom(peer_addr)]);
                    assert(seq![Action::DisconnectFrom(peer_addr)] + Seq::<Action>::empty()
                        =~= seq![Action::DisconnectFrom(peer_addr)]);
                }
            }
            (Transition::Stay, actions)
        } else {
            let actions: Vec<Action> = Vec::new();
            proof {
                assert(actions@ =~= Seq::<Action>::empty());
            }
            (Transition::Stay, actions)
        }
    }

    /// A direct message arrived. A proxy's `Join` answer starts the move into
    /// the joining state, regenerating our identity from `fresh` when our
    /// address lies outside the section's prefix; a `Rebootstrap` answer
    /// redirects the probe to other peers; everything else is ignored.
    pub fn handle_direct_message(
        &mut self,
        msg: DirectMessage,
        _pub_id: PublicId,
        fresh: FullId,
    ) -> (r: Result<(Transition, Vec<Action>), RoutingError>)
        requires
            old(self).wf(),
            msg matches DirectMessage::BootstrapResponse(BootstrapResponse::Join { prefix, .. })
                ==> prefix.wf(),
        ensures
            final(self).wf(),
            msg matches DirectMessage::BootstrapResponse(
                BootstrapResponse::Join { prefix, conn_infos },
            ) ==> ({
                let new_id = if prefix.spec_matches(old(self).full_id.public_id.0) {
                    old(self).full_id
                } else {
                    FullId { public_id: PublicId(prefix.spec_substituted(fresh.public_id.0)) }
                };
                &&& final(self).full_id == new_id
                &&& prefix.spec_matches(new_id.public_id.0)
                &&& final(self).relocate_details is None
                &&& final(self).nodes_to_await@ == old(self).nodes_to_await@
                &&& final(self).bootstrap_connection == old(self).bootstrap_connection
                &&& final(self).peer_map@ == old(self).peer_map@
                &&& final(self).timer == old(self).timer
                &&& final(self).min_section_size == old(self).min_section_size
                &&& r matches Ok((Transition::IntoJoining { conn_infos: ci, relocate_payload: rp },
                actions)) && ci@ == conn_infos@ && actions@ == Seq::<Action>::empty() && rp
                    == match old(self).relocate_details {
                    Some(details) => Some(
                        RelocatePayload {
                            details,
                            signature_of_new_id_with_old_id: Signature {
                                signer: old(self).full_id.public_id.0,
                                over: new_id.public_id.0.0,
                            },
                        },
                    ),
                    None => None,
                }
            }),
            msg matches DirectMessage::BootstrapResponse(BootstrapResponse::Rebootstrap(infos))
                ==> {
                &&& final(self).bootstrap_connection is None
                &&& final(self).nodes_to_await@ == spec_dedup_addrs(infos@)
                &&& final(self).peer_map@ == old(self).peer_map@
                &&& final(self).timer == old(self).timer
                &&& final(self).full_id == old(self).full_id
                &&& final(self).min_section_size == old(self).min_section_size
                &&& final(self).relocate_details == old(self).relocate_details
                &&& r matches Ok((t, actions)) && t is Stay && actions@ == (match old(
                    self,
                ).bootstrap_connection {
                    Some((conn, tok)) => seq![Action::DisconnectFrom(conn.peer_addr)],
                    None => Seq::<Action>::empty(),
                }) + infos@.map_values(|c: ConnectionInfo| Action::ConnectTo(c))
            },
            !(msg matches DirectMessage::BootstrapResponse(_)) ==> ({
                &&& *final(self) == *old(self)
                &&& r matches Ok((t, actions)) && t is Stay && actions@ == Seq::<Action>::empty()
            }),
    {
        match msg {
            DirectMessage::BootstrapResponse(BootstrapResponse::Join { prefix, conn_infos }) => {
                let transition = match self.join_section(prefix, conn_infos, fresh) {
                    Ok(t) => t,
                    Err(e) => {
                        return Err(e);
                    },
                };
                let actions: Vec<Action> = Vec::new();
                proof {
                    assert(actions@ =~= Seq::<Action>::empty());
                }
                Ok((transition, actions))
            },
            DirectMessage::BootstrapResponse(BootstrapResponse::Rebootstrap(new_conn_infos)) => {
                let actions = self.reconnect_to_new_section(new_conn_infos);
                Ok((Transition::Stay, actions))
            },
            _ => {
                let actions: Vec<Action> = Vec::new();
                proof {
                    assert(actions@ =~= Seq::<Action>::empty());
                }
                Ok((Transition::Stay, actions))
            },
        }
    }

    /// A routed message reached us while bootstrapping: nothing to do with
    /// it.
    pub fn handle_hop_message(&mut self, _msg: HopMessage) -> (r: Result<Transition, RoutingError>)
        requires
            old(self).wf(),
        ensures
            final(self).wf(),
            *final(self) == *old(self),
            r matches Ok(t) && t is Stay,
    {
        Ok(Transition::Stay)
    }

    /// A bootstrapping node is no authority at all.
    pub fn in_authority(&self, _dst: &Authority) -> (r: bool)
        ensures
            r == false,
    {
        false
    }

    /// We cannot route yet; the message is dropped.
    pub fn send_routing_message(&mut self, _routing_msg: RoutingMessage) -> (r: Result<
        (),
        RoutingError,
    >)
        requires
            old(self).wf(),
        ensures
            final(self).wf(),
            *final(self) == *old(self),
            r is Ok,
    {
        Ok(())
    }

    /// We cannot serve a send request yet; the request is absorbed.
    pub fn handle_send_message(
        &mut self,
        _src: Authority,
        _dst: Authority,
        _content: Vec<u8>,
    ) -> (r: Result<(), InterfaceError>)
        requires
            old(self).wf(),
        ensures
            final(self).wf(),
            *final(self) == *old(self),
            r is Ok,
    {
        Ok(())
    }

    pub fn full_id(&self) -> (r: &FullId)
        ensures
            r == self.full_id,
    {
        &self.full_id
    }

    pub fn min_section_size(&self) -> (r: usize)
        ensures
            r == self.min_section_size,
    {
        self.min_section_size
    }

    pub fn peer_map(&self) -> (r: &PeerMap)
        ensures
            r == self.peer_map,
    {
        &self.peer_map
    }

    pub fn peer_map_mut(&mut self) -> (r: &mut PeerMap)
        ensures
            *r == old(self).peer_map,
            final(self).peer_map == *final(r),
            final(self).nodes_to_await == old(self).nodes_to_await,
            final(self).bootstrap_connection == old(self).bootstrap_connection,
            final(self).full_id == old(self).full_id,
            final(self).min_section_size == old(self).min_section_size,
            final(self).timer == old(self).timer,
            final(self).relocate_details == old(self).relocate_details,
    {
        &mut self.peer_map
    }

    pub fn timer(&mut self) -> (r: &mut Timer)
        ensures
            *r == old(self).timer,
            final(self).timer == *final(r),
            final(self).nodes_to_await == old(self).nodes_to_await,
            final(self).bootstrap_connection == old(self).bootstrap_connection,
            final(self).full_id == old(self).full_id,
            final(self).min_section_size == old(self).min_section_size,
            final(self).peer_map == old(self).peer_map,
            final(self).relocate_details == old(self).relocate_details,
    {
        &mut self.timer
    }
}

} // verus!
