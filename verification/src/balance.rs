//! Balances over several assets and the commitments that hide them.

use vstd::prelude::*;
use crate::bytes::{le_bytes, u128_to_bytes32};
use crate::domain::{
    spec_domain_separator, value_blinding_domain_separator, value_blinding_label,
    value_generator_domain_separator, value_generator_label,
};
use crate::group::{
    element_add, element_from_field, element_mul, element_sub, encode_to_curve, opt_bytes,
    point_add, point_sub, scalar_mul,
};
use crate::hash::{poseidon_1, poseidon_hash_1};
use crate::note::Value;

verus! {

/// One side of a balance: a value that a transaction provides or requires.
#[derive(Clone, Copy, Debug, PartialEq, Eq)]
pub struct Imbalance {
    pub value: Value,
    /// Whether the value is required; a value that is not required is provided.
    pub required: bool,
}

/// What a set of actions provides and requires, asset by asset.
#[derive(Clone, Debug, PartialEq, Eq)]
pub struct Balance {
    pub imbalances: Vec<Imbalance>,
}

/// The generator with which amounts of `asset_id` are committed to.
pub open spec fn spec_value_generator(asset_id: Seq<u8>) -> Seq<u8> {
    element_from_field(poseidon_1(spec_domain_separator(value_generator_label()), asset_id))
}

/// The generator with which blinding factors are committed to.
pub open spec fn spec_blinding_generator() -> Seq<u8> {
    element_from_field(spec_domain_separator(value_blinding_label()))
}

/// The commitment `acc` with one more imbalance taken in: its amount times the
/// generator of its asset is added where it is provided, and subtracted where
/// it is required.
pub open spec fn spec_accumulate(acc: Option<Seq<u8>>, imbalance: Imbalance) -> Option<Seq<u8>> {
    match acc {
        None => None,
        Some(acc) => match element_mul(
            le_bytes(imbalance.value.amount as nat, 32),
            spec_value_generator(imbalance.value.asset_id@),
        ) {
            None => None,
            Some(term) => if imbalance.required {
                element_sub(acc, term)
            } else {
                element_add(acc, term)
            },
        },
    }
}

/// The commitment to `imbalances` that starts from `start`.
pub open spec fn spec_commit_from(imbalances: Seq<Imbalance>, start: Option<Seq<u8>>) -> Option<
    Seq<u8>,
>
    decreases imbalances.len(),
{
    if imbalances.len() == 0 {
        start
    } else {
        spec_accumulate(spec_commit_from(imbalances.drop_last(), start), imbalances.last())
    }
}

/// Computes the generator with which amounts of `asset_id` are committed to.
pub fn value_generator(asset_id: &[u8; 32]) -> (generator: [u8; 32])
    ensures
        generator@ == spec_value_generator(asset_id@),
{
    let separator = value_generator_domain_separator();
    let hashed = poseidon_hash_1(&separator, asset_id);
    encode_to_curve(&hashed)
}

/// Computes the generator with which blinding factors are committed to.
pub fn blinding_generator() -> (generator: [u8; 32])
    ensures
        generator@ == spec_blinding_generator(),
{
    let separator = value_blinding_domain_separator();
    encode_to_curve(&separator)
}

impl Balance {
    /// The commitment to this balance under `blinding`: the blinding factor
    /// times the blinding generator, plus every provided amount and minus
    /// every required amount, each times the generator of its asset. `None`
    /// where the group refuses an operand.
    pub open spec fn spec_commit(self, blinding: Seq<u8>) -> Option<Seq<u8>> {
        spec_commit_from(self.imbalances@, element_mul(blinding, spec_blinding_generator()))
    }

    /// Computes the commitment to this balance under `blinding`.
    pub fn commit(&self, blinding: &[u8; 32]) -> (commitment: Option<[u8; 32]>)
        ensures
            opt_bytes(commitment) == self.spec_commit(blinding@),
    {
        let h = blinding_generator();
        let mut acc: [u8; 32] = match scalar_mul(blinding, &h) {
            Some(start) => start,
            None => {
                proof {
                    lemma_commit_from_none(self.imbalances@);
                }
                return None;
            },
        };
        let n = self.imbalances.len();
        let mut i: usize = 0;
        while i < n
            invariant
                i <= n,
                n == self.imbalances@.len(),
                Some(acc@) == spec_commit_from(
                    self.imbalances@.take(i as int),
                    element_mul(blinding@, spec_blinding_generator()),
                ),
            decreases n - i,
        {
            let imbalance = self.imbalances[i];
            let generator = value_generator(&imbalance.value.asset_id);
            let amount = u128_to_bytes32(imbalance.value.amount as u128);
            let next = match scalar_mul(&amount, &generator) {
                Some(term) => if imbalance.required {
                    point_sub(&acc, &term)
                } else {
                    point_add(&acc, &term)
                },
                None => None,
            };
            proof {
                let start = element_mul(blinding@, spec_blinding_generator());
                assert(self.imbalances@.take(i as int + 1).drop_last() =~= self.imbalances@.take(
                    i as int,
                ));
                assert(self.imbalances@.take(i as int + 1).last() == imbalance);
                assert(opt_bytes(next) == spec_commit_from(
                    self.imbalances@.take(i as int + 1),
                    start,
                ));
                if next is None {
                    lemma_commit_from_stays_none(self.imbalances@, i as int + 1, start);
                }
            }
            match next {
                Some(value) => {
                    acc = value;
                },
                None => {
                    return None;
                },
            }
            i += 1;
        }
        assert(self.imbalances@.take(n as int) =~= self.imbalances@);
        Some(acc)
    }
}

/// Nothing can be accumulated onto a commitment that could not be started.
pub proof fn lemma_commit_from_none(imbalances: Seq<Imbalance>)
    ensures
        spec_commit_from(imbalances, None) is None,
    decreases imbalances.len(),
{
    if imbalances.len() > 0 {
        lemma_commit_from_none(imbalances.drop_last());
    }
}

/// Once the group has refused an operand the commitment stays undefined.
pub proof fn lemma_commit_from_stays_none(
    imbalances: Seq<Imbalance>,
    k: int,
    start: Option<Seq<u8>>,
)
    requires
        0 <= k <= imbalances.len(),
        spec_commit_from(imbalances.take(k), start) is None,
    ensures
        spec_commit_from(imbalances, start) is None,
    decreases imbalances.len() - k,
{
    if k < imbalances.len() {
        assert(imbalances.take(k + 1).drop_last() =~= imbalances.take(k));
        lemma_commit_from_stays_none(imbalances, k + 1, start);
    } else {
        assert(imbalances.take(k) =~= imbalances);
    }
}

} // verus!
