use vstd::prelude::*;
use crate::messages::{routing_msg_eq, RoutingMessage, RoutingMessageView};

verus! {

/// Whether the sequence holds the message value.
pub open spec fn seen_contains(s: Seq<RoutingMessageView>, v: RoutingMessageView) -> bool {
    exists|i: int| 0 <= i < s.len() && s[i] == v
}

/// The verdict of the duplicate filter on an incoming routing message.
#[derive(Clone, Copy, PartialEq, Eq, Structural, Debug)]
pub enum FilteringResult {
    /// First sighting of the message.
    NewMessage,
    /// The message was seen before.
    KnownMessage,
}

impl FilteringResult {
    pub fn is_new(&self) -> (r: bool)
        ensures
            r == (self is NewMessage),
    {
        match self {
            FilteringResult::NewMessage => true,
            FilteringResult::KnownMessage => false,
        }
    }
}

/// Deduplicates incoming routing messages: only the first sighting of a
/// message is handed on.
#[derive(Debug)]
pub struct RoutingMessageFilter {
    pub seen: Vec<RoutingMessage>,
}

impl RoutingMessageFilter {
    /// The messages seen so far, as mathematical values.
    pub open spec fn seen_views(&self) -> Seq<RoutingMessageView> {
        self.seen@.map_values(|m: RoutingMessage| m@)
    }

    pub fn new() -> (r: RoutingMessageFilter)
        ensures
            r.seen_views() == Seq::<RoutingMessageView>::empty(),
    {
        let r = RoutingMessageFilter { seen: Vec::new() };
        proof {
            assert(r.seen_views() =~= Seq::<RoutingMessageView>::empty());
        }
        r
    }

    /// Record the message; report whether this was its first sighting.
    pub fn filter_incoming(&mut self, msg: &RoutingMessage) -> (r: FilteringResult)
        ensures
            r == FilteringResult::NewMessage <==> !seen_contains(old(self).seen_views(), msg@),
            final(self).seen_views() == if seen_contains(old(self).seen_views(), msg@) {
                old(self).seen_views()
            } else {
                old(self).seen_views().push(msg@)
            },
    {
        let n = self.seen.len();
        let mut i: usize = 0;
        while i < n
            invariant
                n == self.seen@.len(),
                i <= n,
                self == old(self),
                forall|m: int| 0 <= m < i ==> self.seen_views()[m] != msg@,
            decreases n - i,
        {
            if routing_msg_eq(&self.seen[i], msg) {
                proof {
                    assert(self.seen_views()[i as int] == msg@);
                }
                return FilteringResult::KnownMessage;
            }
            i += 1;
        }
        proof {
            if seen_contains(self.seen_views(), msg@) {
                let m = choose|m: int|
                    0 <= m < self.seen_views().len() && self.seen_views()[m] == msg@;
                assert(self.seen_views()[m] != msg@);
            }
        }
        let ghost s0 = self.seen_views();
        self.seen.push(msg.clone());
        proof {
            assert(self.seen_views() =~= s0.push(msg@));
        }
        FilteringResult::NewMessage
    }
}

} // verus!
