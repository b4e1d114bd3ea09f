//! Trusted boundary around `fixedbitset::FixedBitSet`, the packed bit buffer
//! that backs the grid. Each wrapper states, over `bits_of`, what the crate's
//! source shows of one method.

use vstd::prelude::*;
use fixedbitset::FixedBitSet;

verus! {

#[verifier::external_type_specification]
#[verifier::external_body]
pub struct ExFixedBitSet(FixedBitSet);

/// The bits held by a `FixedBitSet`, in index order.
pub uninterp spec fn bits_of(b: FixedBitSet) -> Seq<bool>;

/// Relies on `FixedBitSet::with_capacity`: a set with the given number of
/// bits, all initially clear.
#[verifier::external_body]
pub(crate) fn bitset_with_capacity(bits: usize) -> (r: FixedBitSet)
    ensures
        bits_of(r) == Seq::new(bits as nat, |i: int| false),
{
    FixedBitSet::with_capacity(bits)
}

/// Relies on `FixedBitSet::set`: writes one bit, leaving the rest alone; it
/// panics only when `bit` is out of bounds, which the precondition rules out.
#[verifier::external_body]
pub(crate) fn bitset_set(b: &mut FixedBitSet, bit: usize, enabled: bool)
    requires
        bit < bits_of(*old(b)).len(),
    ensures
        bits_of(*final(b)) == bits_of(*old(b)).update(bit as int, enabled),
{
    b.set(bit, enabled)
}

/// Relies on `FixedBitSet::contains`: reads the bit at `bit`.
#[verifier::external_body]
pub(crate) fn bitset_contains(b: &FixedBitSet, bit: usize) -> (r: bool)
    requires
        bit < bits_of(*b).len(),
    ensures
        r == bits_of(*b)[bit as int],
{
    b.contains(bit)
}

} // verus!
