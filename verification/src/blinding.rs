//! The running sum of the blinding factors of a transaction.
//!
//! Every action that commits to its value under a blinding factor adds that
//! factor here. The sum is the secret scalar of the key that signs the
//! transaction.

use vstd::prelude::*;
use crate::bytes::{le_bytes, le_value, lemma_le_bytes_len};
use crate::field::{lemma_scalar_sum_value, scalar_add, scalar_modulus, scalar_sum, scalar_value};
use crate::plan::ActionPlan;

verus! {

/// The bytes of the scalar zero.
pub open spec fn zero_scalar() -> Seq<u8> {
    le_bytes(0, 32)
}

/// Every byte of the scalar zero is zero.
pub proof fn lemma_zero_scalar(len: nat)
    ensures
        le_bytes(0, len).len() == len,
        forall|i: int| 0 <= i < len ==> le_bytes(0, len)[i] == 0,
    decreases len,
{
    lemma_le_bytes_len(0, len);
    if len > 0 {
        lemma_zero_scalar((len - 1) as nat);
        assert forall|i: int| 0 <= i < len implies le_bytes(0, len)[i] == 0 by {
            if i > 0 {
                assert(le_bytes(0, len)[i] == le_bytes(0, (len - 1) as nat)[i - 1]);
            }
        }
    }
}

/// A running sum of scalars.
pub struct BlindingAccumulator {
    sum: [u8; 32],
}

impl View for BlindingAccumulator {
    type V = Seq<u8>;

    /// The bytes of the sum so far.
    closed spec fn view(&self) -> Seq<u8> {
        self.sum@
    }
}

impl BlindingAccumulator {
    /// An accumulator that holds the additive identity.
    pub fn new() -> (accumulator: BlindingAccumulator)
        ensures
            accumulator@ == zero_scalar(),
    {
        let sum = [0u8; 32];
        proof {
            lemma_zero_scalar(32);
            assert(sum@ =~= zero_scalar());
        }
        BlindingAccumulator { sum }
    }

    /// Adds one contribution to the sum.
    pub fn add(&mut self, contribution: &[u8; 32])
        ensures
            final(self)@ == scalar_sum(old(self)@, contribution@),
    {
        self.sum = scalar_add(&self.sum, contribution);
    }

    /// The sum so far.
    pub fn sum(&self) -> (sum: [u8; 32])
        ensures
            sum@ == self@,
    {
        self.sum
    }

    /// The sum of everything that was added.
    pub fn finalize(self) -> (sum: [u8; 32])
        ensures
            sum@ == self@,
    {
        self.sum
    }
}

/// The sum of `start` and the blinding factors of `plans`, added in order.
pub open spec fn blinding_sum_in(plans: Seq<ActionPlan>, start: Seq<u8>) -> Seq<u8>
    decreases plans.len(),
{
    if plans.len() == 0 {
        start
    } else {
        let before = blinding_sum_in(plans.drop_last(), start);
        match plans.last().spec_blinding() {
            Some(blinding) => scalar_sum(before, blinding@),
            None => before,
        }
    }
}

/// The scalar that a plan contributes: that of its blinding factor, or zero.
pub open spec fn contribution(plan: ActionPlan) -> nat {
    match plan.spec_blinding() {
        Some(blinding) => scalar_value(blinding@),
        None => 0,
    }
}

/// The sum of the scalars that `plans` contribute, as a number.
pub open spec fn total_contribution(plans: Seq<ActionPlan>) -> nat
    decreases plans.len(),
{
    if plans.len() == 0 {
        0
    } else {
        total_contribution(plans.drop_last()) + contribution(plans.last())
    }
}

/// The accumulated bytes spell the sum of the contributions, reduced modulo
/// the group order.
pub proof fn lemma_blinding_sum_value(plans: Seq<ActionPlan>, start: Seq<u8>)
    ensures
        scalar_value(blinding_sum_in(plans, start)) == (scalar_value(start) + total_contribution(
            plans,
        )) % scalar_modulus(),
    decreases plans.len(),
{
    let r = scalar_modulus();
    if plans.len() == 0 {
        vstd::arithmetic::div_mod::lemma_mod_twice(le_value(start) as int, r as int);
    } else {
        let before = blinding_sum_in(plans.drop_last(), start);
        lemma_blinding_sum_value(plans.drop_last(), start);
        let t = total_contribution(plans.drop_last());
        let s = scalar_value(start);
        match plans.last().spec_blinding() {
            Some(blinding) => {
                lemma_scalar_sum_value(before, blinding@);
                let c = scalar_value(blinding@);
                vstd::arithmetic::div_mod::lemma_add_mod_noop((s + t) as int, c as int, r as int);
                vstd::arithmetic::div_mod::lemma_mod_twice(le_value(blinding@) as int, r as int);
            },
            None => {},
        }
    }
}

} // verus!
