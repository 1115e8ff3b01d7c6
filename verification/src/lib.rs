//! Core membership and event-accumulation machinery of a section-based
//! distributed overlay network.
//!
//! Nodes join the overlay by bootstrapping through an existing peer, then
//! wait in a joining phase until a section approves them. Sections agree on
//! membership changes through an external consensus engine; this crate
//! collects the per-event proofs coming out of that engine, delivers each
//! agreed event exactly once, and preserves our own in-flight votes across
//! section reconfigurations.
//!
//! All I/O is left to the embedding application: the lifecycle states return
//! the actions (connect, disconnect, send, emit) that the link layer must
//! perform, and consume the events the link layer reports back.

pub mod xor_name;
pub mod routing_table;
pub mod id;
pub mod assoc_list;
pub mod id_map;
pub mod vec_util;
pub mod error;
pub mod elders_info;
pub mod proof_set;
pub mod peer_map;
pub mod messages;
pub mod network_event;
pub mod event_order;
pub mod chain_accumulator;
pub mod timer;
pub mod routing_message_filter;
pub mod event;
pub mod state_machine;
pub mod adult;
pub mod bootstrapping_peer;
pub mod joining_peer;
