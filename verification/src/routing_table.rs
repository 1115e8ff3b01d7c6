use vstd::prelude::*;
use crate::xor_name::XorName;

verus! {

/// A section is named by the bit prefix shared by the addresses of its
/// members. `bits` holds the prefix value right-aligned, `len` the number of
/// significant bits (at most 64).
#[derive(Clone, Copy, PartialEq, Eq, Structural, PartialOrd, Ord, Hash, Debug)]
pub struct Prefix {
    pub bits: u64,
    pub len: u64,
}

impl Prefix {
    /// A prefix is well formed when its length fits the address width and no
    /// bit above `len` is set.
    pub open spec fn wf(self) -> bool {
        &&& self.len <= 64
        &&& (self.len < 64 ==> self.bits >> self.len == 0)
    }

    /// Whether this prefix is a prefix of the given address.
    pub open spec fn spec_matches(self, name: XorName) -> bool {
        if self.len == 0 {
            true
        } else {
            name.0 >> ((64 - self.len) as u64) == self.bits
        }
    }

    pub fn new(bits: u64, len: u64) -> (r: Prefix)
        requires
            len <= 64,
            len < 64 ==> bits >> len == 0,
        ensures
            r == (Prefix { bits, len }),
            r.wf(),
    {
        Prefix { bits, len }
    }

    pub fn matches(&self, name: XorName) -> (r: bool)
        requires
            self.wf(),
        ensures
            r == self.spec_matches(name),
    {
        if self.len == 0 {
            true
        } else {
            (name.0 >> (64 - self.len)) == self.bits
        }
    }

    /// The smallest address the prefix matches.
    pub open spec fn spec_lower_bound(self) -> XorName {
        if self.len == 0 {
            XorName(0)
        } else {
            XorName(self.bits << ((64 - self.len) as u64))
        }
    }

    pub fn lower_bound(&self) -> (r: XorName)
        requires
            self.wf(),
        ensures
            r == self.spec_lower_bound(),
    {
        if self.len == 0 {
            XorName(0)
        } else {
            XorName(self.bits << (64 - self.len))
        }
    }

    /// The mask selecting the address bits the prefix leaves free.
    pub open spec fn spec_low_mask(self) -> u64 {
        if self.len >= 64 {
            0u64
        } else {
            u64::MAX >> self.len
        }
    }

    /// The address obtained by forcing this prefix onto `name`: the prefix
    /// bits on top, the low bits of `name` below.
    pub open spec fn spec_substituted(self, name: XorName) -> XorName {
        if self.len == 0 {
            name
        } else {
            XorName((self.bits << ((64 - self.len) as u64)) | (name.0 & self.spec_low_mask()))
        }
    }

    pub fn substituted(&self, name: XorName) -> (r: XorName)
        requires
            self.wf(),
        ensures
            r == self.spec_substituted(name),
            self.spec_matches(r),
    {
        if self.len == 0 {
            XorName(name.0)
        } else {
            let mask: u64 = if self.len == 64 {
                0u64
            } else {
                u64::MAX >> self.len
            };
            let r = XorName((self.bits << (64 - self.len)) | (name.0 & mask));
            proof {
                lemma_substituted_matches(self.bits, self.len, name.0);
            }
            r
        }
    }
}

/// Forcing a well-formed prefix onto an address yields an address the prefix
/// matches.
proof fn lemma_substituted_matches(bits: u64, len: u64, name: u64)
    requires
        1 <= len <= 64,
        len < 64 ==> bits >> len == 0,
    ensures
        ((bits << ((64 - len) as u64)) | (name & (if len >= 64 {
            0u64
        } else {
            u64::MAX >> len
        }))) >> ((64 - len) as u64) == bits,
{
    if len == 64 {
        assert(((bits << 0u64) | (name & 0u64)) >> 0u64 == bits) by (bit_vector);
    } else {
        assert((1 <= len < 64 && bits >> len == 0) ==> ((bits << ((64 - len) as u64)) | (name & (
        u64::MAX >> len))) >> ((64 - len) as u64) == bits) by (bit_vector);
    }
}

impl Default for Prefix {
    /// The empty prefix, which matches every address.
    fn default() -> (r: Prefix)
        ensures
            r == (Prefix { bits: 0u64, len: 0u64 }),
            r.wf(),
    {
        proof {
            assert(0u64 >> 0u64 == 0u64) by (bit_vector);
        }
        Prefix { bits: 0, len: 0 }
    }
}

/// Routing table error variants.
#[derive(Clone, Copy, PartialEq, Eq, Structural, Debug)]
pub enum Error {
    /// Adding our own name to the routing table is disallowed.
    OwnNameDisallowed,
    /// The peer name to be added doesn't fall within any section in the routing table.
    PeerNameUnsuitable,
    /// The peer name to be added already exists in the routing table.
    AlreadyExists,
    /// The destination section doesn't have enough members to satisfy the requested route.
    CannotRoute,
    /// The target peer doesn't exist on the network.
    NoSuchPeer,
    /// The routing table state violates the network invariant.
    InvariantViolation,
}

/// The addressee of a routing message: a single node, a whole section, or
/// every section matching a prefix.
#[derive(Clone, Copy, PartialEq, Eq, Structural, Debug)]
pub enum Authority {
    /// A single node.
    Node { name: XorName },
    /// The section whose prefix matches this name.
    Section { name: XorName },
    /// All sections compatible with this prefix.
    PrefixSection { prefix: Prefix },
}

impl Authority {
    /// Whether the authority is a single peer.
    pub fn is_single(&self) -> (r: bool)
        ensures
            r == (self is Node),
    {
        match self {
            Authority::Node { .. } => true,
            _ => false,
        }
    }

    pub open spec fn spec_name(self) -> XorName {
        match self {
            Authority::Node { name } => name,
            Authority::Section { name } => name,
            Authority::PrefixSection { prefix } => prefix.spec_lower_bound(),
        }
    }

    /// A representative address for the authority.
    pub fn name(&self) -> (r: XorName)
        requires
            self matches Authority::PrefixSection { prefix } ==> prefix.wf(),
        ensures
            r == self.spec_name(),
    {
        match self {
            Authority::Node { name } => *name,
            Authority::Section { name } => *name,
            Authority::PrefixSection { prefix } => prefix.lower_bound(),
        }
    }
}

} // verus!
