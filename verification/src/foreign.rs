//! The few operations of outside code that the board is built on: a bit
//! set, a random coin, and a growing string.
//!
//! Nothing in this module is proved: each contract restates what the outside
//! code documents, and the rest of the library is verified against it.

use fixedbitset::FixedBitSet;
use rand::Rng;
use vstd::prelude::*;

verus! {

#[verifier::external_type_specification]
#[verifier::external_body]
pub struct ExFixedBitSet(FixedBitSet);

/// The bits that a `FixedBitSet` holds, one `bool` per position, in order.
pub uninterp spec fn bits(set: FixedBitSet) -> Seq<bool>;

/// `FixedBitSet::with_capacity`: a set of `len` bits, all of them clear.
#[verifier::external_body]
pub(crate) fn cleared(len: usize) -> (set: FixedBitSet)
    ensures
        bits(set) == Seq::new(len as nat, |i: int| false),
{
    FixedBitSet::with_capacity(len)
}

/// `FixedBitSet::contains`: whether the bit at `bit` is set. Only positions
/// inside the set are asked for: of a position past the end the outside
/// method promises nothing that the contents decide.
#[verifier::external_body]
pub(crate) fn bit_at(set: &FixedBitSet, bit: usize) -> (on: bool)
    requires
        bit < bits(*set).len(),
    ensures
        on == bits(*set)[bit as int],
{
    set.contains(bit)
}

/// `FixedBitSet::set`: writes one bit and leaves every other bit as it was.
/// The outside method panics on a position past the end, which the
/// precondition rules out.
#[verifier::external_body]
pub(crate) fn set_bit(set: &mut FixedBitSet, bit: usize, enabled: bool)
    requires
        bit < bits(*old(set)).len(),
    ensures
        bits(*final(set)) == bits(*old(set)).update(bit as int, enabled),
{
    set.set(bit, enabled)
}

/// `FixedBitSet::clone`: a set with the same bits.
pub assume_specification[ <FixedBitSet as Clone>::clone ](set: &FixedBitSet) -> (copy: FixedBitSet)
    ensures
        bits(copy) == bits(*set),
;

/// `Rng::gen_ratio` on `rand::thread_rng()`: a coin that lands `true` with
/// probability `numerator / denominator`. Only the two certain cases are
/// claimed: a zero numerator never hits, a full ratio always does. The
/// outside method panics on a zero denominator or a ratio above one, which
/// the precondition rules out.
#[verifier::external_body]
pub(crate) fn random_ratio(numerator: u32, denominator: u32) -> (hit: bool)
    requires
        denominator != 0,
        numerator <= denominator,
    ensures
        numerator == 0 ==> !hit,
        numerator == denominator ==> hit,
{
    rand::thread_rng().gen_ratio(numerator, denominator)
}

/// `String::push`: appends one character.
#[verifier::external_body]
pub(crate) fn push_char(text: &mut String, c: char)
    ensures
        final(text)@ == old(text)@.push(c),
{
    text.push(c)
}

} // verus!
