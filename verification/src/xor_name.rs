use vstd::prelude::*;

verus! {

/// A fixed-width bit-string overlay address. Distance between two addresses
/// is their bitwise XOR; the address word is modeled with 64 bits.
#[derive(Clone, Copy, PartialEq, Eq, Structural, PartialOrd, Ord, Hash, Debug)]
pub struct XorName(pub u64);

} // verus!
