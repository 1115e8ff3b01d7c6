use vstd::prelude::*;
use crate::adult::{Adult, AdultDetails};
use crate::bootstrapping_peer::BootstrappingPeer;
use crate::elders_info::GenesisPfxInfo;
use crate::error::{InterfaceError, RoutingError};
use crate::event::Action;
use crate::id::{FullId, PublicId};
use crate::messages::{DirectMessage, HopMessage, MessageContent, MessageContentView,
    RelocatePayload, RoutingMessage, RoutingMessageView, SignedRoutingMessage};
use crate::peer_map::{ConnectionInfo, PeerMap};
use crate::routing_table::Authority;
use crate::routing_message_filter::{seen_contains, RoutingMessageFilter};
use crate::state_machine::{State, Transition};
use crate::timer::{spec_deadline, Timer};

verus! {

/// Seconds after which a join attempt is cancelled and possibly retried.
pub const JOIN_TIMEOUT: u64 = 120;

/// How many times the node tries to join the same section before giving up
/// and rebootstrapping.
pub const MAX_JOIN_ATTEMPTS: u8 = 3;

/// One join request to every known contact of the target section.
pub open spec fn spec_join_requests(
    conn_infos: Seq<ConnectionInfo>,
    relocate_payload: Option<RelocatePayload>,
) -> Seq<Action> {
    conn_infos.map_values(
        |c: ConnectionInfo| Action::SendDirect {
            to: c,
            msg: DirectMessage::JoinRequest(relocate_payload),
        },
    )
}

/// Whether the message is a section's approval of a joining node: the
/// approval payload, sent by a prefix section, addressed to a single node.
pub open spec fn spec_is_node_approval(m: RoutingMessageView) -> bool {
    &&& m.content is NodeApproval
    &&& m.src is PrefixSection
    &&& m.dst is Node
}

/// State of a node after bootstrapping, while it waits for a section to
/// approve it.
#[derive(Debug)]
pub struct JoiningPeer {
    pub routing_msg_filter: RoutingMessageFilter,
    /// Routed messages set aside while joining — those that do not name us
    /// as destination, and those we cannot handle yet — kept for replay once
    /// approved.
    pub msg_backlog: Vec<SignedRoutingMessage>,
    pub full_id: FullId,
    pub min_section_size: usize,
    pub peer_map: PeerMap,
    pub timer: Timer,
    /// The token of the outstanding join timeout.
    pub join_token: u64,
    /// How many join attempts have timed out so far.
    pub join_attempts: u8,
    /// The contacts of the section we ask to join.
    pub conn_infos: Vec<ConnectionInfo>,
    /// Present when we join in the course of a relocation.
    pub relocate_payload: Option<RelocatePayload>,
}

impl JoiningPeer {
    pub open spec fn wf(&self) -> bool {
        &&& self.peer_map.wf()
        &&& self.timer.wf()
    }

    /// Enter the joining state: schedule the join timeout and ask every
    /// contact of the section to admit us.
    pub fn new(
        full_id: FullId,
        min_section_size: usize,
        timer: Timer,
        peer_map: PeerMap,
        conn_infos: Vec<ConnectionInfo>,
        relocate_payload: Option<RelocatePayload>,
    ) -> (r: (JoiningPeer, Vec<Action>))
        requires
            timer.wf(),
            timer.next_token < u64::MAX,
            peer_map.wf(),
        ensures
            r.0.wf(),
            r.0.full_id == full_id,
            r.0.min_section_size == min_section_size,
            r.0.peer_map@ == peer_map@,
            r.0.conn_infos@ == conn_infos@,
            r.0.relocate_payload == relocate_payload,
            r.0.join_token == timer.next_token,
            r.0.join_attempts == 0,
            r.0.msg_backlog@.len() == 0,
            r.0.routing_msg_filter.seen_views() == Seq::<RoutingMessageView>::empty(),
            r.0.timer.next_token == timer.next_token + 1,
            r.0.timer.now == timer.now,
            r.0.timer.schedules@ == timer.schedules@.push(
                (timer.next_token, spec_deadline(timer.now, JOIN_TIMEOUT)),
            ),
            r.1@ == spec_join_requests(conn_infos@, relocate_payload),
    {
        let mut timer = timer;
        let join_token = timer.schedule(JOIN_TIMEOUT);
        let joining_peer = JoiningPeer {
            routing_msg_filter: RoutingMessageFilter::new(),
            msg_backlog: Vec::new(),
            full_id,
            min_section_size,
            timer,
            peer_map,
            join_token,
            join_attempts: 0,
            conn_infos,
            relocate_payload,
        };
        let actions = joining_peer.send_join_requests();
        (joining_peer, actions)
    }

    /// Ask every known contact of the target section to admit us.
    pub fn send_join_requests(&self) -> (actions: Vec<Action>)
        ensures
            actions@ == spec_join_requests(self.conn_infos@, self.relocate_payload),
    {
        let n = self.conn_infos.len();
        let mut actions: Vec<Action> = Vec::new();
        let mut i: usize = 0;
        while i < n
            invariant
                n == self.conn_infos@.len(),
                i <= n,
                actions@ == spec_join_requests(self.conn_infos@.subrange(0, i as int), self
                    .relocate_payload),
            decreases n - i,
        {
            let dst = self.conn_infos[i];
            actions.push(
                Action::SendDirect { to: dst, msg: DirectMessage::JoinRequest(self.relocate_payload) },
            );
            proof {
                assert(actions@ =~= spec_join_requests(
                    self.conn_infos@.subrange(0, i + 1 as int),
                    self.relocate_payload,
                ));
            }
            i += 1;
        }
        proof {
            assert(self.conn_infos@.subrange(0, n as int) =~= self.conn_infos@);
        }
        actions
    }

    /// The section approved us: move into the adult state, carrying the
    /// message backlog for replay.
    pub fn into_adult(self, gen_pfx_info: GenesisPfxInfo) -> (r: Result<State, RoutingError>)
        requires
            self.wf(),
        ensures
            r matches Ok(State::Adult(a)) && {
                &&& a.full_id == self.full_id
                &&& a.gen_pfx_info@ == gen_pfx_info@
                &&& a.min_section_size == self.min_section_size
                &&& a.msg_backlog@ == self.msg_backlog@
                &&& a.peer_map@ == self.peer_map@
                &&& a.timer == self.timer
                &&& a.routing_msg_filter.seen_views() == self.routing_msg_filter.seen_views()
                &&& a.event_backlog@.len() == 0
                &&& a.chain.wf()
                &&& a.chain.pending_seq().len() == 0
                &&& a.chain.completed_seq().len() == 0
            },
    {
        let details = AdultDetails {
            event_backlog: Vec::new(),
            full_id: self.full_id,
            gen_pfx_info,
            min_section_size: self.min_section_size,
            msg_backlog: self.msg_backlog,
            peer_map: self.peer_map,
            routing_msg_filter: self.routing_msg_filter,
            timer: self.timer,
        };
        match Adult::from_joining_peer(details) {
            Ok(adult) => Ok(State::Adult(adult)),
            Err(e) => Err(e),
        }
    }

    /// Give up on this section and bootstrap again. The caller supplies the
    /// fresh identity the rejoin uses: a node never goes back to
    /// bootstrapping under the identity it failed to join with.
    pub fn rebootstrap(self, new_full_id: FullId) -> (r: Result<
        (State, Vec<Action>),
        RoutingError,
    >)
        requires
            self.wf(),
            new_full_id != self.full_id,
        ensures
            r matches Ok((State::BootstrappingPeer(b), actions)) && {
                &&& b.wf()
                &&& b.full_id == new_full_id
                &&& b.full_id != self.full_id
                &&& b.min_section_size == self.min_section_size
                &&& b.timer == self.timer
                &&& b.nodes_to_await@.len() == 0
                &&& b.bootstrap_connection is None
                &&& b.relocate_details is None
                &&& b.peer_map@.len() == 0
                &&& actions@ == seq![Action::Bootstrap]
            },
    {
        let (peer, actions) = BootstrappingPeer::new(
            new_full_id,
            self.min_section_size,
            self.timer,
        );
        Ok((State::BootstrappingPeer(peer), actions))
    }

    /// Hand a routed message on: the section's approval starts the move into
    /// the adult state; everything else is kept for later replay.
    fn dispatch_routing_message(&mut self, msg: SignedRoutingMessage) -> (r: Result<
        Transition,
        RoutingError,
    >)
        requires
            old(self).wf(),
        ensures
            final(self).wf(),
            spec_is_node_approval(msg.content@) ==> ({
                &&& *final(self) == *old(self)
                &&& r matches Ok(Transition::IntoAdult { gen_pfx_info }) && msg.content@.content
                    == MessageContentView::NodeApproval(gen_pfx_info@)
            }),
            !spec_is_node_approval(msg.content@) ==> {
                &&& final(self).msg_backlog@ == old(self).msg_backlog@.push(msg)
                &&& final(self).routing_msg_filter == old(self).routing_msg_filter
                &&& final(self).full_id == old(self).full_id
                &&& final(self).min_section_size == old(self).min_section_size
                &&& final(self).peer_map@ == old(self).peer_map@
                &&& final(self).timer == old(self).timer
                &&& final(self).join_token == old(self).join_token
                &&& final(self).join_attempts == old(self).join_attempts
                &&& final(self).conn_infos@ == old(self).conn_infos@
                &&& final(self).relocate_payload == old(self).relocate_payload
                &&& r matches Ok(t) && t is Stay
            },
    {
        let (msg, verified) = msg.into_parts();
        match msg {
            RoutingMessage {
                content: MessageContent::NodeApproval(gen_info),
                src: Authority::PrefixSection { .. },
                dst: Authority::Node { .. },
            } => Ok(self.handle_node_approval(gen_info)),
            other => {
                self.msg_backlog.push(SignedRoutingMessage::from_parts(other, verified));
                Ok(Transition::Stay)
            },
        }
    }

    /// The section let us in: move to the adult state with the received
    /// genesis information.
    fn handle_node_approval(&mut self, gen_pfx_info: GenesisPfxInfo) -> (r: Transition)
        ensures
            *final(self) == *old(self),
            r matches Transition::IntoAdult { gen_pfx_info: g } && g == gen_pfx_info,
    {
        Transition::IntoAdult { gen_pfx_info }
    }

    /// Collect and drop the timer tokens whose deadline has passed.
    pub fn get_timed_out_tokens(&mut self) -> (r: Vec<u64>)
        requires
            old(self).wf(),
        ensures
            final(self).wf(),
            r@ == crate::timer::spec_expired(old(self).timer.schedules@, old(self).timer.now),
            final(self).timer.schedules@ == crate::timer::spec_live(
                old(self).timer.schedules@,
                old(self).timer.now,
            ),
            final(self).timer.next_token == old(self).timer.next_token,
            final(self).timer.now == old(self).timer.now,
            final(self).msg_backlog@ == old(self).msg_backlog@,
            final(self).peer_map@ == old(self).peer_map@,
            final(self).join_token == old(self).join_token,
            final(self).join_attempts == old(self).join_attempts,
            final(self).full_id == old(self).full_id,
    {
        self.timer.get_timed_out_tokens()
    }

    /// The join timeout fired. A stale token has no observable effect; the
    /// matching token retries the join until the attempts are exhausted, at
    /// which point every connected peer is dropped and the node goes back to
    /// bootstrapping.
    pub fn handle_timeout(&mut self, token: u64) -> (r: (Transition, Vec<Action>))
        requires
            old(self).wf(),
            old(self).timer.next_token < u64::MAX,
            old(self).join_attempts < u8::MAX,
        ensures
            final(self).wf(),
            old(self).join_token != token ==> *final(self) == *old(self) && r.0 is Stay && r.1@
                == Seq::<Action>::empty(),
            old(self).join_token == token && old(self).join_attempts + 1 < MAX_JOIN_ATTEMPTS ==> {
                &&& final(self).join_attempts == old(self).join_attempts + 1
                &&& final(self).join_token == old(self).timer.next_token
                &&& final(self).timer.next_token == old(self).timer.next_token + 1
                &&& final(self).timer.now == old(self).timer.now
                &&& final(self).timer.schedules@ == old(self).timer.schedules@.push(
                    (old(self).timer.next_token, spec_deadline(old(self).timer.now, JOIN_TIMEOUT)),
                )
                &&& final(self).peer_map@ == old(self).peer_map@
                &&& final(self).msg_backlog@ == old(self).msg_backlog@
                &&& final(self).conn_infos@ == old(self).conn_infos@
                &&& final(self).relocate_payload == old(self).relocate_payload
                &&& final(self).full_id == old(self).full_id
                &&& r.0 is Stay
                &&& r.1@ == spec_join_requests(old(self).conn_infos@, old(self).relocate_payload)
            },
            old(self).join_token == token && old(self).join_attempts + 1 >= MAX_JOIN_ATTEMPTS ==> {
                &&& final(self).join_attempts == old(self).join_attempts + 1
                &&& final(self).join_token == old(self).join_token
                &&& final(self).timer == old(self).timer
                &&& final(self).peer_map@.len() == 0
                &&& final(self).msg_backlog@ == old(self).msg_backlog@
                &&& final(self).conn_infos@ == old(self).conn_infos@
                &&& final(self).relocate_payload == old(self).relocate_payload
                &&& final(self).full_id == old(self).full_id
                &&& r.0 is Rebootstrap
                &&& r.1@ == old(self).peer_map@.map_values(
                    |c: ConnectionInfo| Action::DisconnectFrom(c.peer_addr),
                )
            },
    {
        if self.join_token == token {
            self.join_attempts = self.join_attempts + 1;
            if self.join_attempts < MAX_JOIN_ATTEMPTS {
                self.join_token = self.timer.schedule(JOIN_TIMEOUT);
                let actions = self.send_join_requests();
                (Transition::Stay, actions)
            } else {
                let drained = self.peer_map.remove_all();
                let n = drained.len();
                let mut actions: Vec<Action> = Vec::new();
                let mut i: usize = 0;
                while i < n
                    invariant
                        n == drained@.len(),
                        i <= n,
                        actions@ == drained@.subrange(0, i as int).map_values(
                            |c: ConnectionInfo| Action::DisconnectFrom(c.peer_addr),
                        ),
                    decreases n - i,
                {
                    actions.push(Action::DisconnectFrom(drained[i].peer_addr));
                    proof {
                        assert(actions@ =~= drained@.subrange(0, i + 1 as int).map_values(
                            |c: ConnectionInfo| Action::DisconnectFrom(c.peer_addr),
                        ));
                    }
                    i += 1;
                }
                proof {
                    assert(drained@.subrange(0, n as int) =~= drained@);
                }
                (Transition::Rebootstrap, actions)
            }
        } else {
            let actions: Vec<Action> = Vec::new();
            proof {
                assert(actions@ =~= Seq::<Action>::empty());
            }
            (Transition::Stay, actions)
        }
    }

    /// Direct messages carry nothing a joining peer handles.
    pub fn handle_direct_message(&mut self, _msg: DirectMessage, _pub_id: PublicId) -> (r: Result<
        (Transition, Vec<Action>),
        RoutingError,
    >)
        requires
            old(self).wf(),
        ensures
            final(self).wf(),
            *final(self) == *old(self),
            r matches Ok((t, actions)) && t is Stay && actions@ == Seq::<Action>::empty(),
    {
        let actions: Vec<Action> = Vec::new();
        proof {
            assert(actions@ =~= Seq::<Action>::empty());
        }
        Ok((Transition::Stay, actions))
    }

    /// A routed message arrived by hop. Duplicates are filtered out. The
    /// first sighting of a message that does not name us as destination is
    /// queued in the backlog for later replay once we become Adult; one
    /// addressed to us is handled, unless its verification fails, in which
    /// case it is dropped with an error.
    pub fn handle_hop_message(&mut self, msg: HopMessage) -> (r: Result<Transition, RoutingError>)
        requires
            old(self).wf(),
        ensures
            final(self).wf(),
            ({
                let content = msg.content;
                let is_new = !seen_contains(
                    old(self).routing_msg_filter.seen_views(),
                    content.content@,
                );
                let ours = content.content.dst matches Authority::Node { name } && name == old(
                    self,
                ).full_id.public_id.0;
                &&& final(self).routing_msg_filter.seen_views() == if is_new {
                    old(self).routing_msg_filter.seen_views().push(content.content@)
                } else {
                    old(self).routing_msg_filter.seen_views()
                }
                &&& final(self).full_id == old(self).full_id
                &&& final(self).peer_map@ == old(self).peer_map@
                &&& final(self).timer == old(self).timer
                &&& final(self).join_token == old(self).join_token
                &&& final(self).join_attempts == old(self).join_attempts
                &&& final(self).conn_infos@ == old(self).conn_infos@
                &&& final(self).relocate_payload == old(self).relocate_payload
                &&& (is_new && !ours ==> ({
                    &&& final(self).msg_backlog@ == old(self).msg_backlog@.push(content)
                    &&& r matches Ok(t) && t is Stay
                }))
                &&& (is_new && ours && !content.verified ==> r == Err::<Transition, RoutingError>(
                    RoutingError::FailedSignature,
                ) && final(self).msg_backlog@ == old(self).msg_backlog@)
                &&& (is_new && ours && content.verified && spec_is_node_approval(content.content@)
                    ==> ({
                    &&& final(self).msg_backlog@ == old(self).msg_backlog@
                    &&& r matches Ok(Transition::IntoAdult { gen_pfx_info })
                        && content.content@.content == MessageContentView::NodeApproval(
                        gen_pfx_info@,
                    )
                }))
                &&& (is_new && ours && content.verified && !spec_is_node_approval(content.content@)
                    ==> ({
                    &&& final(self).msg_backlog@ == old(self).msg_backlog@.push(content)
                    &&& r matches Ok(t) && t is Stay
                }))
                &&& (!is_new ==> ({
                    &&& final(self).msg_backlog@ == old(self).msg_backlog@
                    &&& r matches Ok(t) && t is Stay
                }))
            }),
    {
        let HopMessage { content: msg } = msg;
        let is_new = self.routing_msg_filter.filter_incoming(msg.routing_message()).is_new();
        if is_new {
            if self.in_authority(&msg.routing_message().dst) {
                if !msg.verified {
                    return Err(RoutingError::FailedSignature);
                }
                self.dispatch_routing_message(msg)
            } else {
                self.msg_backlog.push(msg);
                Ok(Transition::Stay)
            }
        } else {
            Ok(Transition::Stay)
        }
    }

    /// Whether the destination authority is exactly this node.
    pub fn in_authority(&self, dst: &Authority) -> (r: bool)
        ensures
            r == (dst matches Authority::Node { name } && name == self.full_id.public_id.0),
    {
        if dst.is_single() {
            let name = dst.name();
            name == self.full_id.public_id().name()
        } else {
            false
        }
    }

    /// We are not joined yet; a routing message cannot be sent.
    pub fn send_routing_message(&mut self, _routing_msg: RoutingMessage) -> (r: Result<
        (),
        RoutingError,
    >)
        requires
            old(self).wf(),
        ensures
            final(self).wf(),
            *final(self) == *old(self),
            r is Ok,
    {
        Ok(())
    }

    /// We cannot serve a send request yet; the request is absorbed.
    pub fn handle_send_message(
        &mut self,
        _src: Authority,
        _dst: Authority,
        _content: Vec<u8>,
    ) -> (r: Result<(), InterfaceError>)
        requires
            old(self).wf(),
        ensures
            final(self).wf(),
            *final(self) == *old(self),
            r is Ok,
    {
        Ok(())
    }

    pub fn full_id(&self) -> (r: &FullId)
        ensures
            r == self.full_id,
    {
        &self.full_id
    }

    pub fn min_section_size(&self) -> (r: usize)
        ensures
            r == self.min_section_size,
    {
        self.min_section_size
    }

    pub fn peer_map(&self) -> (r: &PeerMap)
        ensures
            r == self.peer_map,
    {
        &self.peer_map
    }

    pub fn peer_map_mut(&mut self) -> (r: &mut PeerMap)
        ensures
            *r == old(self).peer_map,
            final(self).peer_map == *final(r),
            final(self).routing_msg_filter == old(self).routing_msg_filter,
            final(self).msg_backlog == old(self).msg_backlog,
            final(self).full_id == old(self).full_id,
            final(self).min_section_size == old(self).min_section_size,
            final(self).timer == old(self).timer,
            final(self).join_token == old(self).join_token,
            final(self).join_attempts == old(self).join_attempts,
            final(self).conn_infos == old(self).conn_infos,
            final(self).relocate_payload == old(self).relocate_payload,
    {
        &mut self.peer_map
    }

    pub fn timer(&mut self) -> (r: &mut Timer)
        ensures
            *r == old(self).timer,
            final(self).timer == *final(r),
            final(self).routing_msg_filter == old(self).routing_msg_filter,
            final(self).msg_backlog == old(self).msg_backlog,
            final(self).full_id == old(self).full_id,
            final(self).min_section_size == old(self).min_section_size,
            final(self).peer_map == old(self).peer_map,
            final(self).join_token == old(self).join_token,
            final(self).join_attempts == old(self).join_attempts,
            final(self).conn_infos == old(self).conn_infos,
            final(self).relocate_payload == old(self).relocate_payload,
    {
        &mut self.timer
    }
}

} // verus!
