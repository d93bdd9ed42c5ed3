//! Checking the binding signature of a transaction, and hashing a plan ahead
//! of building it.

use vstd::prelude::*;
use crate::action::Action;
use crate::blinding::{zero_scalar, BlindingAccumulator};
use crate::builder::{encrypt_memo, make_clues, spec_clues, spec_memo};
use crate::encoding::put_bytes;
use crate::error::{Category, CATEGORY_COUNT};
use crate::field::scalar_sum;
use crate::order::{
    canonical, canonical_upto, lemma_canonical_len, lemma_canonical_prefix,
    lemma_of_category_prefix, lemma_of_category_step, of_category,
};
use crate::plan::ActionPlan;
use crate::rdsa::{
    binding_key, binding_signature_verifies, binding_verification_key, verify_binding,
};
use crate::transaction::{
    action_digests, hash_action, hash_parts, spec_auth_hash, Header, Transaction,
    TransactionBody, TransactionPlan,
};

verus! {

/// The sum of `start` and the blinding factors of `actions`, added in order.
pub open spec fn action_blinding_sum(actions: Seq<Action>, start: Seq<u8>) -> Seq<u8>
    decreases actions.len(),
{
    if actions.len() == 0 {
        start
    } else {
        let before = action_blinding_sum(actions.drop_last(), start);
        match actions.last().spec_blinding() {
            Some(blinding) => scalar_sum(before, blinding@),
            None => before,
        }
    }
}

/// The encodings of `plans`, in order.
pub open spec fn plan_encodings(plans: Seq<ActionPlan>) -> Seq<Seq<u8>> {
    Seq::new(plans.len(), |i: int| plans[i].spec_encode())
}

impl TransactionBody {
    /// The sum of the blinding factors of the actions of this body.
    pub open spec fn spec_blinding_sum(self) -> Seq<u8> {
        action_blinding_sum(self.actions@, zero_scalar())
    }

    /// Sums the blinding factors of the actions of this body.
    pub fn blinding_sum(&self) -> (sum: [u8; 32])
        ensures
            sum@ == self.spec_blinding_sum(),
    {
        let mut accumulator = BlindingAccumulator::new();
        let n = self.actions.len();
        let mut i: usize = 0;
        while i < n
            invariant
                i <= n,
                n == self.actions@.len(),
                accumulator@ == action_blinding_sum(self.actions@.take(i as int), zero_scalar()),
            decreases n - i,
        {
            proof {
                assert(self.actions@.take(i as int + 1).drop_last() =~= self.actions@.take(
                    i as int,
                ));
                assert(self.actions@.take(i as int + 1).last() == self.actions@[i as int]);
            }
            match self.actions[i].blinding() {
                Some(blinding) => {
                    accumulator.add(&blinding);
                },
                None => {},
            }
            i += 1;
        }
        assert(self.actions@.take(n as int) =~= self.actions@);
        accumulator.finalize()
    }
}

impl Transaction {
    /// The key under which the binding signature of this transaction is to
    /// verify: the one that belongs to the sum of the blinding factors of its
    /// actions.
    pub open spec fn spec_binding_verification_key(self) -> Seq<u8> {
        binding_verification_key(self.transaction_body.spec_blinding_sum())
    }

    /// Whether the binding signature of this transaction verifies on the
    /// authorizing hash of its body, under its binding verification key.
    pub open spec fn spec_binding_sig_verifies(self) -> bool {
        binding_signature_verifies(
            self.spec_binding_verification_key(),
            self.transaction_body.spec_auth_hash(),
            self.binding_sig@,
        )
    }

    /// Computes the binding verification key of this transaction.
    pub fn binding_verification_key(&self) -> (vk: [u8; 32])
        ensures
            vk@ == self.spec_binding_verification_key(),
    {
        let sum = self.transaction_body.blinding_sum();
        binding_key(&sum)
    }

    /// Checks the binding signature of this transaction.
    pub fn verify_binding_sig(&self) -> (ok: bool)
        ensures
            ok == self.spec_binding_sig_verifies(),
    {
        let vk = self.binding_verification_key();
        let auth_hash = self.transaction_body.auth_hash();
        verify_binding(&vk, auth_hash.as_slice(), &self.binding_sig)
    }
}

impl TransactionPlan {
    /// The header of the transaction that this plan describes.
    pub open spec fn spec_header(self) -> Header {
        Header {
            chain_id: vstd::utf8::encode_utf8(self.chain_id@),
            expiry_height: self.expiry_height,
            valid_after: self.valid_after,
            valid_before: self.valid_before,
            fee: self.fee,
            memo: spec_memo(self.memo_plan),
        }
    }

    /// The authorizing hash of the transaction that this plan describes: the
    /// hash of its header, of its actions in canonical order, and of its clues.
    pub open spec fn spec_auth_hash(self) -> Seq<u8> {
        spec_auth_hash(
            self.spec_header(),
            plan_encodings(canonical(self.actions@)),
            spec_clues(self.clue_plans@),
        )
    }

    /// Computes the authorizing hash of the transaction that this plan
    /// describes, without building it.
    pub fn auth_hash(&self) -> (hash: [u8; 64])
        ensures
            hash@ == self.spec_auth_hash(),
    {
        let memo = encrypt_memo(&self.memo_plan);
        let n = self.actions.len();
        let mut digests: Vec<u8> = Vec::new();
        let mut count: usize = 0;
        let mut rank: u8 = 0;
        assert(plan_encodings(canonical_upto(self.actions@, 0)) =~= Seq::<Seq<u8>>::empty());
        while rank < CATEGORY_COUNT
            invariant
                rank <= CATEGORY_COUNT,
                n == self.actions@.len(),
                count == canonical_upto(self.actions@, rank as nat).len(),
                digests@ == action_digests(
                    plan_encodings(canonical_upto(self.actions@, rank as nat)),
                ),
            decreases CATEGORY_COUNT - rank,
        {
            let category = Category::from_rank(rank);
            let ghost before = canonical_upto(self.actions@, rank as nat);
            let ghost base = count;
            let mut j: usize = 0;
            assert(before + of_category(self.actions@.take(0), category) =~= before);
            proof {
                lemma_canonical_prefix(
                    self.actions@,
                    (rank + 1) as nat,
                    CATEGORY_COUNT as nat,
                );
                lemma_canonical_len(self.actions@);
            }
            while j < n
                invariant
                    j <= n,
                    n == self.actions@.len(),
                    rank < CATEGORY_COUNT,
                    base + of_category(self.actions@, category).len() <= n,
                    count == base + of_category(self.actions@.take(j as int), category).len(),
                    before.len() == base,
                    digests@ == action_digests(
                        plan_encodings(
                            before + of_category(self.actions@.take(j as int), category),
                        ),
                    ),
                decreases n - j,
            {
                let plan = &self.actions[j];
                proof {
                    lemma_of_category_step(self.actions@, j as int, category);
                    lemma_of_category_prefix(self.actions@, j as int + 1, category);
                }
                if plan.category() == category {
                    let encoded = plan.encode();
                    let digest = hash_action(encoded.as_slice());
                    put_bytes(&mut digests, digest.as_slice());
                    count += 1;
                    proof {
                        let shorter = before + of_category(self.actions@.take(j as int), category);
                        let longer = before + of_category(
                            self.actions@.take(j as int + 1),
                            category,
                        );
                        assert(longer =~= shorter.push(*plan));
                        assert(plan_encodings(longer).drop_last() =~= plan_encodings(shorter));
                        assert(plan_encodings(longer).last() == plan.spec_encode());
                    }
                }
                j += 1;
            }
            assert(self.actions@.take(n as int) =~= self.actions@);
            rank += 1;
        }
        let clues = make_clues(&self.clue_plans);
        hash_parts(
            &self.chain_id,
            self.expiry_height,
            self.valid_after,
            self.valid_before,
            &self.fee,
            &memo,
            &digests,
            Ghost(plan_encodings(canonical(self.actions@))),
            count,
            &clues,
        )
    }
}

} // verus!
