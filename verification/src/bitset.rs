//! What this crate takes on trust about `fixedbitset::FixedBitSet`, the dense
//! bit container that stores the cells.
//!
//! Nothing in this file is proved. Each contract restates, over the sequence
//! of bits that a set holds, what the source of `fixedbitset` shows of one
//! of its functions.

use crate::counting::occurrences;
use fixedbitset::FixedBitSet;
use vstd::prelude::*;

verus! {

/// `fixedbitset::FixedBitSet`, of which the verifier sees nothing but the
/// contracts below.
#[verifier::external_type_specification]
#[verifier::external_body]
pub struct ExFixedBitSet(fixedbitset::FixedBitSet);

/// The bits that a set holds, in index order: its length is the set's length
/// in bits, and entry `i` is `true` exactly when bit `i` is enabled.
pub uninterp spec fn bits_of(set: &FixedBitSet) -> Seq<bool>;

/// `FixedBitSet::with_capacity`: a set of `bits` bits, all of them clear.
pub assume_specification[ FixedBitSet::with_capacity ](bits: usize) -> (set: FixedBitSet)
    ensures
        bits_of(&set) == Seq::new(bits as nat, |i: int| false),
;

/// `FixedBitSet::len`: the length in bits (not the number of enabled bits).
pub assume_specification[ FixedBitSet::len ](set: &FixedBitSet) -> (len: usize)
    ensures
        len == bits_of(set).len(),
;

/// `FixedBitSet::set`: writes one bit and leaves the others as they were.
/// The method panics when `bit` is out of bounds, so that is ruled out.
pub assume_specification[ FixedBitSet::set ](set: &mut FixedBitSet, bit: usize, enabled: bool)
    requires
        bit < bits_of(old(set)).len(),
    ensures
        bits_of(final(set)) == bits_of(old(set)).update(bit as int, enabled),
;

/// `FixedBitSet::toggle`: inverts one bit and leaves the others as they were.
/// The method panics when `bit` is out of bounds, so that is ruled out.
pub assume_specification[ FixedBitSet::toggle ](set: &mut FixedBitSet, bit: usize)
    requires
        bit < bits_of(old(set)).len(),
    ensures
        bits_of(final(set)) == bits_of(old(set)).update(bit as int, !bits_of(old(set))[bit as int]),
;

/// `Clone::clone` of a `FixedBitSet`: a set of the same length with the same
/// bits.
pub assume_specification[ <FixedBitSet as Clone>::clone ](set: &FixedBitSet) -> (copy: FixedBitSet)
    ensures
        bits_of(&copy) == bits_of(set),
;

/// The index operator of `FixedBitSet`: whether bit `bit` is enabled. A bit
/// past the end reads as disabled; the operator does not panic.
#[verifier::external_body]
pub(crate) fn bit_at(set: &FixedBitSet, bit: usize) -> (enabled: bool)
    ensures
        enabled == (bit < bits_of(set).len() && bits_of(set)[bit as int]),
{
    set[bit]
}

/// `FixedBitSet::count_ones` over the full range `..`: the number of enabled
/// bits in the whole set.
#[verifier::external_body]
pub(crate) fn count_ones(set: &FixedBitSet) -> (ones: usize)
    ensures
        ones == occurrences(bits_of(set), true),
{
    set.count_ones(..)
}

} // verus!
