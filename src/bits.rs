//! The packed cell buffer: `fixedbitset::FixedBitSet`, seen through the flags it holds.

use fixedbitset::FixedBitSet;
use vstd::prelude::*;

verus! {

#[verifier::external_type_specification]
#[verifier::external_body]
pub struct ExFixedBitSet(FixedBitSet);

/// The flags that a bit set holds, one for each bit of its length.
pub uninterp spec fn bits_of(s: FixedBitSet) -> Seq<bool>;

/// Whether bit `k` of a 32-bit block is set.
pub open spec fn block_bit(word: u32, k: u32) -> bool {
    (word >> k) & 1u32 == 1u32
}

/// Relies on `FixedBitSet::with_capacity`: a set of `n` bits, all clear.
#[verifier::external_body]
pub(crate) fn cleared(n: usize) -> (r: FixedBitSet)
    ensures
        bits_of(r) == Seq::new(n as nat, |i: int| false),
{
    FixedBitSet::with_capacity(n)
}

/// Relies on `FixedBitSet::contains`: whether bit `i`, within the length, is set.
#[verifier::external_body]
pub(crate) fn bit(s: &FixedBitSet, i: usize) -> (r: bool)
    requires
        i < bits_of(*s).len(),
    ensures
        r == bits_of(*s)[i as int],
{
    s.contains(i)
}

/// Relies on `FixedBitSet::set`: bit `i` takes `v`, every other bit and the length stay.
/// It panics on a bit past the length.
#[verifier::external_body]
pub(crate) fn put_bit(s: &mut FixedBitSet, i: usize, v: bool)
    requires
        i < bits_of(*old(s)).len(),
    ensures
        bits_of(*final(s)) == bits_of(*old(s)).update(i as int, v),
{
    s.set(i, v)
}

/// Relies on `Clone for FixedBitSet`: the copy has the same blocks and length.
#[verifier::external_body]
pub(crate) fn duplicate(s: &FixedBitSet) -> (r: FixedBitSet)
    ensures
        bits_of(r) == bits_of(*s),
{
    s.clone()
}

/// Relies on `FixedBitSet::as_slice`: the 32-bit blocks that store the set, bit `i`
/// at position `i % 32` of block `i / 32`.
#[verifier::external_body]
pub(crate) fn blocks(s: &FixedBitSet) -> (r: &[u32])
    ensures
        r@.len() == (bits_of(*s).len() + 31) / 32,
        forall|i: int|
            0 <= i < bits_of(*s).len() ==> (#[trigger] bits_of(*s)[i] <==> block_bit(
                r@[i / 32],
                (i % 32) as u32,
            )),
{
    s.as_slice()
}

} // verus!
