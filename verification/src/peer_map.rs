use vstd::prelude::*;
use crate::vec_util::clone_copy_vec;

verus! {

/// A transport endpoint address, as a plain value.
#[derive(Clone, Copy, PartialEq, Eq, Structural, PartialOrd, Ord, Hash, Debug)]
pub struct PeerAddr(pub u64);

/// What a peer hands out so others can connect to it.
#[derive(Clone, Copy, PartialEq, Eq, Structural, PartialOrd, Ord, Hash, Debug)]
pub struct ConnectionInfo {
    pub peer_addr: PeerAddr,
}

/// Whether some entry of the sequence carries the address.
pub open spec fn contains_addr(s: Seq<ConnectionInfo>, addr: PeerAddr) -> bool {
    exists|i: int| 0 <= i < s.len() && s[i].peer_addr == addr
}

/// The index of the entry carrying the address.
pub open spec fn addr_index(s: Seq<ConnectionInfo>, addr: PeerAddr) -> int {
    choose|i: int| 0 <= i < s.len() && s[i].peer_addr == addr
}

/// The sequence with the entry carrying the address removed, if one is
/// there.
pub open spec fn spec_disconnect(s: Seq<ConnectionInfo>, addr: PeerAddr) -> Seq<ConnectionInfo> {
    if contains_addr(s, addr) {
        s.remove(addr_index(s, addr))
    } else {
        s
    }
}

/// The sequence with the peer recorded: unchanged when its address is
/// already there.
pub open spec fn spec_connect(s: Seq<ConnectionInfo>, info: ConnectionInfo) -> Seq<ConnectionInfo> {
    if contains_addr(s, info.peer_addr) {
        s
    } else {
        s.push(info)
    }
}

/// The peers this node currently holds a connection to, keyed by address.
#[derive(Debug, PartialEq, Eq)]
pub struct PeerMap {
    pub connections: Vec<ConnectionInfo>,
}

impl PeerMap {
    pub open spec fn view(&self) -> Seq<ConnectionInfo> {
        self.connections@
    }

    /// No two entries share an address.
    pub open spec fn wf(&self) -> bool {
        forall|i: int, j: int|
            0 <= i < j < self.connections@.len() ==> self.connections@[i].peer_addr
                != self.connections@[j].peer_addr
    }

    pub fn new() -> (r: PeerMap)
        ensures
            r.wf(),
            r@ == Seq::<ConnectionInfo>::empty(),
    {
        let connections: Vec<ConnectionInfo> = Vec::new();
        proof {
            assert(connections@ =~= Seq::<ConnectionInfo>::empty());
        }
        PeerMap { connections }
    }

    /// Record a connection to the peer; a connection to the same address is
    /// already the same connection.
    pub fn connect(&mut self, info: ConnectionInfo)
        requires
            old(self).wf(),
        ensures
            final(self).wf(),
            final(self)@ == spec_connect(old(self)@, info),
    {
        let n = self.connections.len();
        let mut i: usize = 0;
        while i < n
            invariant
                n == self.connections@.len(),
                i <= n,
                self == old(self),
                self.wf(),
                forall|m: int| 0 <= m < i ==> self.connections@[m].peer_addr != info.peer_addr,
            decreases n - i,
        {
            if self.connections[i].peer_addr == info.peer_addr {
                return ;
            }
            i += 1;
        }
        proof {
            if contains_addr(self.connections@, info.peer_addr) {
                let m = choose|m: int|
                    0 <= m < self.connections@.len() && self.connections@[m].peer_addr
                        == info.peer_addr;
                assert(self.connections@[m].peer_addr != info.peer_addr);
            }
        }
        self.connections.push(info);
    }

    /// Drop the connection to the given address, if any, returning it.
    pub fn disconnect(&mut self, addr: PeerAddr) -> (r: Option<ConnectionInfo>)
        requires
            old(self).wf(),
        ensures
            final(self).wf(),
            final(self)@ == spec_disconnect(old(self)@, addr),
            match r {
                Some(info) => contains_addr(old(self)@, addr) && info.peer_addr == addr,
                None => !contains_addr(old(self)@, addr),
            },
    {
        let n = self.connections.len();
        let mut i: usize = 0;
        while i < n
            invariant
                n == self.connections@.len(),
                i <= n,
                old(self) == self,
                self.wf(),
                forall|m: int| 0 <= m < i ==> self.connections@[m].peer_addr != addr,
            decreases n - i,
        {
            if self.connections[i].peer_addr == addr {
                let info = self.connections[i];
                let ghost s0 = self.connections@;
                proof {
                    assert(contains_addr(s0, addr));
                    let j = addr_index(s0, addr);
                    assert(0 <= j < s0.len() && s0[j].peer_addr == addr);
                    if j != i as int {
                        assert(false);
                    }
                }
                self.connections.remove(i);
                proof {
                    assert forall|a: int, b: int|
                        0 <= a < b < self.connections@.len() implies self.connections@[a].peer_addr
                        != self.connections@[b].peer_addr by {
                        s0.remove_ensures(i as int);
                        let a0 = if a < i { a } else { a + 1 };
                        let b0 = if b < i { b } else { b + 1 };
                        assert(self.connections@[a] == s0[a0]);
                        assert(self.connections@[b] == s0[b0]);
                    }
                }
                return Some(info);
            }
            i += 1;
        }
        proof {
            if contains_addr(self.connections@, addr) {
                let m = choose|m: int|
                    0 <= m < self.connections@.len() && self.connections@[m].peer_addr == addr;
                assert(self.connections@[m].peer_addr != addr);
            }
        }
        None
    }

    /// Drain every connection, returning them in stored order.
    pub fn remove_all(&mut self) -> (r: Vec<ConnectionInfo>)
        requires
            old(self).wf(),
        ensures
            final(self).wf(),
            final(self)@ == Seq::<ConnectionInfo>::empty(),
            r@ == old(self)@,
    {
        let r = clone_copy_vec(&self.connections);
        self.connections.clear();
        proof {
            assert(self.connections@ =~= Seq::<ConnectionInfo>::empty());
        }
        r
    }
}

} // verus!
