use vstd::prelude::*;
use crate::id::PublicId;
use crate::routing_table::Prefix;
use crate::vec_util::clone_copy_vec;

verus! {

/// Snapshot of a section: its elders, its prefix, and a monotonic version.
#[derive(Debug, PartialEq, Eq, PartialOrd, Ord, Hash)]
pub struct EldersInfo {
    pub members: Vec<PublicId>,
    pub prefix: Prefix,
    pub version: u64,
}

/// The mathematical value of an [`EldersInfo`].
pub struct EldersInfoView {
    pub members: Seq<PublicId>,
    pub prefix: Prefix,
    pub version: u64,
}

impl View for EldersInfo {
    type V = EldersInfoView;

    open spec fn view(&self) -> EldersInfoView {
        EldersInfoView { members: self.members@, prefix: self.prefix, version: self.version }
    }
}

/// Exclusive-or of the addresses of a run of identities.
pub open spec fn spec_names_xor(s: Seq<PublicId>) -> u64
    decreases s.len(),
{
    if s.len() == 0 {
        0u64
    } else {
        spec_names_xor(s.drop_last()) ^ s.last().0.0
    }
}

/// The payload tag a signature over this section snapshot covers.
pub open spec fn spec_info_tag(v: EldersInfoView) -> u64 {
    spec_names_xor(v.members) ^ v.prefix.bits ^ v.prefix.len ^ v.version
}

impl EldersInfo {
    pub fn new(members: Vec<PublicId>, prefix: Prefix, version: u64) -> (r: EldersInfo)
        ensures
            r@ == (EldersInfoView { members: members@, prefix, version }),
    {
        EldersInfo { members, prefix, version }
    }

    /// The payload tag a signature over this snapshot covers.
    pub fn tag(&self) -> (r: u64)
        ensures
            r == spec_info_tag(self@),
    {
        let n = self.members.len();
        let mut acc: u64 = 0;
        let mut i: usize = 0;
        while i < n
            invariant
                n == self.members@.len(),
                i <= n,
                acc == spec_names_xor(self.members@.subrange(0, i as int)),
            decreases n - i,
        {
            proof {
                let sub = self.members@.subrange(0, i + 1 as int);
                assert(sub.drop_last() =~= self.members@.subrange(0, i as int));
                assert(sub.last() == self.members@[i as int]);
            }
            acc = acc ^ self.members[i].0.0;
            i += 1;
        }
        proof {
            assert(self.members@.subrange(0, n as int) =~= self.members@);
        }
        acc ^ self.prefix.bits ^ self.prefix.len ^ self.version
    }
}

impl Clone for EldersInfo {
    fn clone(&self) -> (r: Self)
        ensures
            r@ == self@,
    {
        EldersInfo {
            members: clone_copy_vec(&self.members),
            prefix: self.prefix,
            version: self.version,
        }
    }
}

/// Whether two section snapshots are the same snapshot.
pub fn elders_info_eq(a: &EldersInfo, b: &EldersInfo) -> (r: bool)
    ensures
        r == (a@ == b@),
{
    if a.prefix != b.prefix || a.version != b.version || a.members.len() != b.members.len() {
        return false;
    }
    let n = a.members.len();
    let mut i: usize = 0;
    while i < n
        invariant
            n == a.members@.len(),
            n == b.members@.len(),
            i <= n,
            forall|m: int| 0 <= m < i ==> a.members@[m] == b.members@[m],
        decreases n - i,
    {
        if a.members[i] != b.members[i] {
            return false;
        }
        i += 1;
    }
    proof {
        assert(a.members@ =~= b.members@);
    }
    true
}

/// A remote section's public key, as stored in our trust table.
#[derive(Clone, Copy, PartialEq, Eq, Structural, PartialOrd, Ord, Hash, Debug)]
pub struct SectionKeyInfo {
    /// The prefix of the section the key belongs to.
    pub prefix: Prefix,
    /// The version of the section snapshot the key signs.
    pub version: u64,
    /// The section's public key.
    pub key: u64,
}

/// The genesis information a newly approved node receives about its section.
#[derive(Debug, PartialEq, Eq)]
pub struct GenesisPfxInfo {
    pub first_info: EldersInfo,
}

/// The mathematical value of a [`GenesisPfxInfo`].
pub struct GenesisPfxInfoView {
    pub first_info: EldersInfoView,
}

impl View for GenesisPfxInfo {
    type V = GenesisPfxInfoView;

    open spec fn view(&self) -> GenesisPfxInfoView {
        GenesisPfxInfoView { first_info: self.first_info@ }
    }
}

impl Clone for GenesisPfxInfo {
    fn clone(&self) -> (r: Self)
        ensures
            r@ == self@,
    {
        GenesisPfxInfo { first_info: self.first_info.clone() }
    }
}

/// Whether two genesis descriptors carry the same snapshot.
pub fn genesis_info_eq(a: &GenesisPfxInfo, b: &GenesisPfxInfo) -> (r: bool)
    ensures
        r == (a@ == b@),
{
    elders_info_eq(&a.first_info, &b.first_info)
}

} // verus!
