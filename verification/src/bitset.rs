//! Trusted boundary around `fixedbitset::FixedBitSet`, the packed bit storage
//! that backs the grid. Each contract states only what the fixedbitset source
//! shows of the call it relies on; `bits_of` names the sequence of bits a set
//! holds, and every wrapper speaks over that name.

use vstd::prelude::*;

verus! {

#[verifier::external_type_specification]
#[verifier::external_body]
pub struct ExFixedBitSet(fixedbitset::FixedBitSet);

/// The bits a `FixedBitSet` holds, lowest index first; its length is the
/// number of bits the set was created with.
pub uninterp spec fn bits_of(s: fixedbitset::FixedBitSet) -> Seq<bool>;

/// Relies on `fixedbitset::FixedBitSet::with_capacity`: a set of `bits` bits,
/// all initially clear.
#[verifier::external_body]
pub(crate) fn bitset_with_capacity(bits: usize) -> (r: fixedbitset::FixedBitSet)
    ensures
        bits_of(r) == Seq::new(bits as nat, |i: int| false),
{
    fixedbitset::FixedBitSet::with_capacity(bits)
}

/// Relies on `fixedbitset::FixedBitSet::len`: the number of bits the set holds.
#[verifier::external_body]
pub(crate) fn bitset_len(s: &fixedbitset::FixedBitSet) -> (r: usize)
    ensures
        r == bits_of(*s).len(),
{
    s.len()
}

/// Relies on `fixedbitset::FixedBitSet::contains`: for an index under the
/// length, the stored bit.
#[verifier::external_body]
pub(crate) fn bitset_get(s: &fixedbitset::FixedBitSet, bit: usize) -> (r: bool)
    requires
        bit < bits_of(*s).len(),
    ensures
        r == bits_of(*s)[bit as int],
{
    s.contains(bit)
}

/// Relies on `fixedbitset::FixedBitSet::set`: writes the bit at `bit` and
/// nothing else; it panics on an index at or over the length, which the
/// precondition rules out.
#[verifier::external_body]
pub(crate) fn bitset_set(s: &mut fixedbitset::FixedBitSet, bit: usize, enabled: bool)
    requires
        bit < bits_of(*old(s)).len(),
    ensures
        bits_of(*final(s)) == bits_of(*old(s)).update(bit as int, enabled),
{
    s.set(bit, enabled)
}

} // verus!
