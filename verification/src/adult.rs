use vstd::prelude::*;
use crate::chain_accumulator::{AccumulatingProofView, ChainAccumulator};
use crate::network_event::AccumulatingEventView;
use crate::elders_info::GenesisPfxInfo;
use crate::error::RoutingError;
use crate::event::Event;
use crate::id::FullId;
use crate::messages::SignedRoutingMessage;
use crate::peer_map::PeerMap;
use crate::routing_message_filter::RoutingMessageFilter;
use crate::timer::Timer;

verus! {

/// Everything a joining peer hands over when the section approves it.
#[derive(Debug)]
pub struct AdultDetails {
    pub event_backlog: Vec<Event>,
    pub full_id: FullId,
    pub gen_pfx_info: GenesisPfxInfo,
    pub min_section_size: usize,
    pub msg_backlog: Vec<SignedRoutingMessage>,
    pub peer_map: PeerMap,
    pub routing_msg_filter: RoutingMessageFilter,
    pub timer: Timer,
}

/// An in-section member. It consumes agreed events through its accumulator:
/// every outgoing transition from here is driven by a polled accumulator
/// event or a link-layer notification.
#[derive(Debug)]
pub struct Adult {
    pub chain: ChainAccumulator,
    pub event_backlog: Vec<Event>,
    pub full_id: FullId,
    pub gen_pfx_info: GenesisPfxInfo,
    pub min_section_size: usize,
    pub msg_backlog: Vec<SignedRoutingMessage>,
    pub peer_map: PeerMap,
    pub routing_msg_filter: RoutingMessageFilter,
    pub timer: Timer,
}

impl Adult {
    pub fn from_joining_peer(details: AdultDetails) -> (r: Result<Adult, RoutingError>)
        ensures
            r matches Ok(a) && a.full_id == details.full_id && a.gen_pfx_info@
                == details.gen_pfx_info@ && a.min_section_size == details.min_section_size
                && a.msg_backlog@ == details.msg_backlog@ && a.peer_map@ == details.peer_map@
                && a.event_backlog@ == details.event_backlog@ && a.timer == details.timer
                && a.routing_msg_filter.seen_views() == details.routing_msg_filter.seen_views()
                && a.chain.wf() && a.chain.pending_seq() == Seq::<
                (AccumulatingEventView, AccumulatingProofView),
            >::empty() && a.chain.completed_seq() == Seq::<AccumulatingEventView>::empty(),
    {
        Ok(
            Adult {
                chain: ChainAccumulator::default(),
                event_backlog: details.event_backlog,
                full_id: details.full_id,
                gen_pfx_info: details.gen_pfx_info,
                min_section_size: details.min_section_size,
                msg_backlog: details.msg_backlog,
                peer_map: details.peer_map,
                routing_msg_filter: details.routing_msg_filter,
                timer: details.timer,
            },
        )
    }
}

} // verus!
