//! What holds of every transaction that the builder returns.

use vstd::prelude::*;
use crate::action::Action;
use crate::assemble::{built_from, lemma_built_from_keeps_plan, spec_missing, Context};
use crate::blinding::{
    blinding_sum_in, contribution, lemma_blinding_sum_value, total_contribution, zero_scalar,
};
use crate::field::{scalar_modulus, scalar_value};
use crate::verify::{action_blinding_sum, plan_encodings};
use crate::builder::{
    block_built, blinding_sum_upto, built_upto, first_missing_in, first_missing_upto,
    lemma_first_missing_prefix, lemma_first_missing_stays, spec_built, spec_context,
    spec_failure,
};
use crate::error::{Category, Error, CATEGORY_COUNT};
use crate::keys::FullViewingKey;
use crate::order::{
    canonical, canonical_upto, lemma_canonical_len, lemma_canonical_prefix, of_category,
};
use crate::plan::ActionPlan;
use crate::transaction::{Transaction, TransactionPlan};
use crate::witness::{find_proof, AuthorizationData, Proof, WitnessData};

verus! {

/// Whether `actions` and `plans` agree one for one: each action is of the
/// category of its plan, hashes as its plan does, and contributes the blinding
/// factor of its plan.
pub open spec fn follows(actions: Seq<Action>, plans: Seq<ActionPlan>) -> bool {
    &&& actions.len() == plans.len()
    &&& forall|i: int|
        0 <= i < plans.len() ==> {
            &&& (#[trigger] actions[i]).spec_category() == plans[i].spec_category()
            &&& actions[i].spec_encode() == plans[i].spec_encode()
            &&& actions[i].spec_blinding() == plans[i].spec_blinding()
        }
}

/// The actions that are built from a plan follow the canonical order of the
/// plan, one action for one planned action.
pub proof fn lemma_built_follows_canonical(
    actions: Seq<Action>,
    plans: Seq<ActionPlan>,
    ranks: nat,
    ctx: Context,
)
    requires
        built_upto(actions, plans, ranks, ctx),
    ensures
        follows(actions, canonical_upto(plans, ranks)),
    decreases ranks,
{
    if ranks > 0 {
        let block = of_category(plans, Category::spec_from_rank((ranks - 1) as u8));
        let split = actions.len() - block.len();
        lemma_built_follows_canonical(actions.take(split), plans, (ranks - 1) as nat, ctx);
        assert forall|i: int| 0 <= i < actions.len() implies {
            &&& (#[trigger] actions[i]).spec_category() == canonical_upto(
                plans,
                ranks,
            )[i].spec_category()
            &&& actions[i].spec_encode() == canonical_upto(plans, ranks)[i].spec_encode()
            &&& actions[i].spec_blinding() == canonical_upto(plans, ranks)[i].spec_blinding()
        } by {
            if i < split {
                assert(actions.take(split)[i] == actions[i]);
            } else {
                assert(actions.skip(split)[i - split] == actions[i]);
                assert(built_from(actions.skip(split)[i - split], block[i - split], i - split, ctx));
                lemma_built_from_keeps_plan(actions[i], block[i - split], i - split, ctx);
            }
        }
    }
}

/// Building keeps what was built for the categories that come first: the
/// beginning of the action list is built from the first categories alone.
pub proof fn lemma_built_prefix(
    actions: Seq<Action>,
    plans: Seq<ActionPlan>,
    fewer: nat,
    more: nat,
    ctx: Context,
)
    requires
        fewer <= more,
        built_upto(actions, plans, more, ctx),
    ensures
        canonical_upto(plans, fewer).len() <= actions.len(),
        built_upto(actions.take(canonical_upto(plans, fewer).len() as int), plans, fewer, ctx),
    decreases more - fewer,
{
    lemma_built_follows_canonical(actions, plans, more, ctx);
    lemma_canonical_prefix(plans, fewer, more);
    if fewer == more {
        assert(actions.take(actions.len() as int) =~= actions);
    } else {
        let block = of_category(plans, Category::spec_from_rank((more - 1) as u8));
        let split = actions.len() - block.len();
        lemma_built_follows_canonical(actions.take(split), plans, (more - 1) as nat, ctx);
        lemma_built_prefix(actions.take(split), plans, fewer, (more - 1) as nat, ctx);
        let len = canonical_upto(plans, fewer).len() as int;
        assert(actions.take(split).take(len) =~= actions.take(len));
    }
}

/// A transaction lists its spends first and its outputs right after them,
/// each in the order of the plan: with `n` spends and `m` outputs planned, the
/// first `n` actions are the spends and the next `m` are the outputs, and the
/// transaction has as many actions as the plan.
pub proof fn lemma_spends_then_outputs(actions: Seq<Action>, plans: Seq<ActionPlan>, ctx: Context)
    requires
        built_upto(actions, plans, CATEGORY_COUNT as nat, ctx),
    ensures
        actions.len() == plans.len(),
        of_category(plans, Category::Spend).len() + of_category(plans, Category::Output).len()
            <= actions.len(),
        forall|i: int|
            0 <= i < of_category(plans, Category::Spend).len() ==> {
                &&& #[trigger] actions[i] is Spend
                &&& built_from(actions[i], of_category(plans, Category::Spend)[i], i, ctx)
            },
        forall|i: int|
            0 <= i < of_category(plans, Category::Output).len() ==> {
                &&& #[trigger] actions[of_category(plans, Category::Spend).len() + i] is Output
                &&& built_from(
                    actions[of_category(plans, Category::Spend).len() + i],
                    of_category(plans, Category::Output)[i],
                    i,
                    ctx,
                )
            },
{
    let spends = of_category(plans, Category::Spend);
    let outputs = of_category(plans, Category::Output);
    lemma_built_follows_canonical(actions, plans, CATEGORY_COUNT as nat, ctx);
    lemma_canonical_len(plans);
    lemma_built_prefix(actions, plans, 2, CATEGORY_COUNT as nat, ctx);
    reveal_with_fuel(canonical_upto, 3);
    reveal_with_fuel(built_upto, 3);
    assert(canonical_upto(plans, 2) =~= spends + outputs);
    let head = actions.take((spends.len() + outputs.len()) as int);
    let n = spends.len() as int;
    assert(head.len() - outputs.len() == n);
    assert(block_built(head.skip(n), outputs, ctx));
    assert(built_upto(head.take(n), plans, 1, ctx));
    assert(head.take(n).len() - spends.len() == 0);
    assert(head.take(n).skip(0) =~= head.take(n));
    assert(block_built(head.take(n), spends, ctx));
    crate::order::lemma_of_category_members(plans, Category::Spend);
    crate::order::lemma_of_category_members(plans, Category::Output);
    assert forall|i: int| 0 <= i < spends.len() implies {
        &&& #[trigger] actions[i] is Spend
        &&& built_from(actions[i], spends[i], i, ctx)
    } by {
        assert(head.take(n)[i] == actions[i]);
        assert(built_from(head.take(n)[i], spends[i], i, ctx));
        assert(spends[i].spec_category() == Category::Spend);
    }
    assert forall|i: int| 0 <= i < outputs.len() implies {
        &&& #[trigger] actions[n + i] is Output
        &&& built_from(actions[n + i], outputs[i], i, ctx)
    } by {
        assert(head.skip(n)[i] == actions[n + i]);
        assert(built_from(head.skip(n)[i], outputs[i], i, ctx));
        assert(outputs[i].spec_category() == Category::Output);
    }
}

/// A plan cannot be built with another number of spend signatures than it
/// has spends, whatever the two numbers are: the build fails with
/// `InputMismatch`, which names both.
pub proof fn lemma_spend_auth_mismatch_fails(
    plan: TransactionPlan,
    auth_data: AuthorizationData,
    witness_data: WitnessData,
)
    requires
        auth_data.spend_auths@.len() != of_category(plan.actions@, Category::Spend).len(),
    ensures
        spec_failure(plan, auth_data, witness_data) == Some(
            Error::InputMismatch {
                category: Category::Spend,
                expected: of_category(plan.actions@, Category::Spend).len() as usize,
                found: auth_data.spend_auths@.len() as usize,
            },
        ),
{
}

/// A plan with as many signatures as it needs cannot be built with another
/// number of vote signatures than it has delegator votes.
pub proof fn lemma_vote_auth_mismatch_fails(
    plan: TransactionPlan,
    auth_data: AuthorizationData,
    witness_data: WitnessData,
)
    requires
        auth_data.spend_auths@.len() == of_category(plan.actions@, Category::Spend).len(),
        auth_data.delegator_vote_auths@.len() != of_category(
            plan.actions@,
            Category::DelegatorVote,
        ).len(),
    ensures
        spec_failure(plan, auth_data, witness_data) == Some(
            Error::InputMismatch {
                category: Category::DelegatorVote,
                expected: of_category(plan.actions@, Category::DelegatorVote).len() as usize,
                found: auth_data.delegator_vote_auths@.len() as usize,
            },
        ),
{
}

/// Where a proof is missing among `plans`, the commitment that is named
/// belongs to the first plan that misses its proof.
pub proof fn lemma_first_missing_is_first(plans: Seq<ActionPlan>, proofs: Seq<Proof>, j: int)
    requires
        0 <= j < plans.len(),
        spec_missing(plans[j], proofs) is Some,
        forall|i: int| 0 <= i < j ==> spec_missing(#[trigger] plans[i], proofs) is None,
    ensures
        first_missing_in(plans, proofs) == spec_missing(plans[j], proofs),
{
    lemma_no_missing(plans.take(j), proofs);
    assert(plans.take(j + 1).drop_last() =~= plans.take(j));
    assert(plans.take(j + 1).last() == plans[j]);
    lemma_first_missing_prefix(plans, j + 1, proofs);
}

/// Where no plan misses its proof, no commitment is named.
pub proof fn lemma_no_missing(plans: Seq<ActionPlan>, proofs: Seq<Proof>)
    requires
        forall|i: int| 0 <= i < plans.len() ==> spec_missing(#[trigger] plans[i], proofs) is None,
    ensures
        first_missing_in(plans, proofs) is None,
    decreases plans.len(),
{
    if plans.len() > 0 {
        assert forall|i: int| 0 <= i < plans.drop_last().len() implies spec_missing(
            #[trigger] plans.drop_last()[i],
            proofs,
        ) is None by {
            assert(plans.drop_last()[i] == plans[i]);
        }
        lemma_no_missing(plans.drop_last(), proofs);
        assert(plans.last() == plans[plans.len() - 1]);
    }
}

/// A plan with the right numbers of signatures, one of whose spends has no
/// inclusion proof in the witness data, cannot be built: the build fails with
/// `MissingProof`, and the commitment it names is that of the first spend of
/// the plan that has no proof.
pub proof fn lemma_missing_spend_proof_fails(
    plan: TransactionPlan,
    auth_data: AuthorizationData,
    witness_data: WitnessData,
    j: int,
)
    requires
        auth_data.spend_auths@.len() == of_category(plan.actions@, Category::Spend).len(),
        auth_data.delegator_vote_auths@.len() == of_category(
            plan.actions@,
            Category::DelegatorVote,
        ).len(),
        0 <= j < of_category(plan.actions@, Category::Spend).len(),
        spec_missing(
            of_category(plan.actions@, Category::Spend)[j],
            witness_data.state_commitment_proofs@,
        ) is Some,
        forall|i: int|
            0 <= i < j ==> spec_missing(
                #[trigger] of_category(plan.actions@, Category::Spend)[i],
                witness_data.state_commitment_proofs@,
            ) is None,
    ensures
        spec_failure(plan, auth_data, witness_data) == Some(
            Error::MissingProof {
                commitment: of_category(plan.actions@, Category::Spend)[j].spec_commitment().unwrap(),
            },
        ),
        find_proof(
            witness_data.state_commitment_proofs@,
            of_category(plan.actions@, Category::Spend)[j].spec_commitment().unwrap(),
        ) is None,
{
    let proofs = witness_data.state_commitment_proofs@;
    let spends = of_category(plan.actions@, Category::Spend);
    lemma_first_missing_is_first(spends, proofs, j);
    reveal_with_fuel(first_missing_upto, 2);
    assert(first_missing_upto(plan.actions@, 1, proofs) == first_missing_in(spends, proofs));
    lemma_first_missing_stays(plan.actions@, 1, CATEGORY_COUNT as nat, proofs);
}

/// Adding up over two lists, one after the other, is adding up over the
/// first and going on from there over the second.
pub proof fn lemma_blinding_sum_concat(
    first: Seq<ActionPlan>,
    second: Seq<ActionPlan>,
    start: Seq<u8>,
)
    ensures
        blinding_sum_in(first + second, start) == blinding_sum_in(
            second,
            blinding_sum_in(first, start),
        ),
    decreases second.len(),
{
    if second.len() == 0 {
        assert(first + second =~= first);
    } else {
        assert((first + second).drop_last() =~= first + second.drop_last());
        assert((first + second).last() == second.last());
        lemma_blinding_sum_concat(first, second.drop_last(), start);
    }
}

/// The sum that the builder accumulates category by category is the sum over
/// the canonical order.
pub proof fn lemma_blinding_sum_canonical(plans: Seq<ActionPlan>, ranks: nat)
    ensures
        blinding_sum_upto(plans, ranks) == blinding_sum_in(
            canonical_upto(plans, ranks),
            zero_scalar(),
        ),
    decreases ranks,
{
    if ranks > 0 {
        lemma_blinding_sum_canonical(plans, (ranks - 1) as nat);
        lemma_blinding_sum_concat(
            canonical_upto(plans, (ranks - 1) as nat),
            of_category(plans, Category::spec_from_rank((ranks - 1) as u8)),
            zero_scalar(),
        );
    }
}

/// Actions that follow plans add up to what the plans add up to.
pub proof fn lemma_action_blinding_sum(
    actions: Seq<Action>,
    plans: Seq<ActionPlan>,
    start: Seq<u8>,
)
    requires
        follows(actions, plans),
    ensures
        action_blinding_sum(actions, start) == blinding_sum_in(plans, start),
    decreases plans.len(),
{
    if plans.len() > 0 {
        assert forall|i: int| 0 <= i < plans.drop_last().len() implies {
            &&& (#[trigger] actions.drop_last()[i]).spec_category()
                == plans.drop_last()[i].spec_category()
            &&& actions.drop_last()[i].spec_encode() == plans.drop_last()[i].spec_encode()
            &&& actions.drop_last()[i].spec_blinding() == plans.drop_last()[i].spec_blinding()
        } by {
            assert(actions.drop_last()[i] == actions[i]);
        }
        lemma_action_blinding_sum(actions.drop_last(), plans.drop_last(), start);
        assert(actions.last() == actions[actions.len() - 1]);
    }
}

/// The actions of a transaction are as many as the planned actions. The
/// spends come first and the outputs right after them, each in the order of
/// the plan: with `n` spends and `m` outputs planned, action `i` is the spend
/// made from the `i`-th planned spend for every `i` below `n`, and action
/// `n + i` is the output made from the `i`-th planned output for every `i`
/// below `m`.
pub proof fn lemma_transaction_lists_spends_then_outputs(
    transaction: Transaction,
    plan: TransactionPlan,
    seed: Seq<u8>,
    fvk: FullViewingKey,
    auth_data: AuthorizationData,
    witness_data: WitnessData,
)
    requires
        spec_built(transaction, plan, seed, fvk, auth_data, witness_data),
    ensures
        transaction.transaction_body.actions@.len() == plan.actions@.len(),
        forall|i: int|
            0 <= i < of_category(plan.actions@, Category::Spend).len() ==> {
                &&& #[trigger] transaction.transaction_body.actions@[i] is Spend
                &&& built_from(
                    transaction.transaction_body.actions@[i],
                    of_category(plan.actions@, Category::Spend)[i],
                    i,
                    spec_context(plan, fvk, auth_data, witness_data),
                )
            },
        forall|i: int|
            0 <= i < of_category(plan.actions@, Category::Output).len() ==> {
                &&& #[trigger] transaction.transaction_body.actions@[of_category(
                    plan.actions@,
                    Category::Spend,
                ).len() + i] is Output
                &&& built_from(
                    transaction.transaction_body.actions@[of_category(
                        plan.actions@,
                        Category::Spend,
                    ).len() + i],
                    of_category(plan.actions@, Category::Output)[i],
                    i,
                    spec_context(plan, fvk, auth_data, witness_data),
                )
            },
{
    lemma_spends_then_outputs(
        transaction.transaction_body.actions@,
        plan.actions@,
        spec_context(plan, fvk, auth_data, witness_data),
    );
}

/// The binding signature of a transaction that was built verifies on the
/// authorizing hash of its body, under the key that belongs to the sum of the
/// blinding factors that its actions record.
pub proof fn lemma_binding_signature_verifies(
    transaction: Transaction,
    plan: TransactionPlan,
    seed: Seq<u8>,
    fvk: FullViewingKey,
    auth_data: AuthorizationData,
    witness_data: WitnessData,
)
    requires
        spec_built(transaction, plan, seed, fvk, auth_data, witness_data),
    ensures
        transaction.spec_binding_sig_verifies(),
{
    let actions = transaction.transaction_body.actions@;
    let ctx = spec_context(plan, fvk, auth_data, witness_data);
    lemma_built_follows_canonical(actions, plan.actions@, CATEGORY_COUNT as nat, ctx);
    lemma_blinding_sum_canonical(plan.actions@, CATEGORY_COUNT as nat);
    lemma_action_blinding_sum(actions, canonical(plan.actions@), zero_scalar());
}

/// The authorizing hash of a transaction that was built is the hash that its
/// plan gave ahead of building.
pub proof fn lemma_auth_hash_agrees(
    transaction: Transaction,
    plan: TransactionPlan,
    seed: Seq<u8>,
    fvk: FullViewingKey,
    auth_data: AuthorizationData,
    witness_data: WitnessData,
)
    requires
        spec_built(transaction, plan, seed, fvk, auth_data, witness_data),
    ensures
        transaction.transaction_body.spec_auth_hash() == plan.spec_auth_hash(),
{
    let actions = transaction.transaction_body.actions@;
    let ctx = spec_context(plan, fvk, auth_data, witness_data);
    lemma_built_follows_canonical(actions, plan.actions@, CATEGORY_COUNT as nat, ctx);
    assert(transaction.transaction_body.spec_encodings() =~= plan_encodings(
        canonical(plan.actions@),
    ));
    assert(transaction.transaction_body.spec_header() == plan.spec_header());
}

/// Taking one more plan into account adds its contribution to the total over
/// the canonical order if its category is among the categories counted.
pub proof fn lemma_total_canonical_step(plans: Seq<ActionPlan>, ranks: nat)
    requires
        plans.len() > 0,
        ranks <= CATEGORY_COUNT,
    ensures
        total_contribution(canonical_upto(plans, ranks)) == total_contribution(
            canonical_upto(plans.drop_last(), ranks),
        ) + (if plans.last().spec_category().spec_rank() < ranks {
            contribution(plans.last())
        } else {
            0nat
        }),
    decreases ranks,
{
    if ranks > 0 {
        lemma_total_canonical_step(plans, (ranks - 1) as nat);
        let category = Category::spec_from_rank((ranks - 1) as u8);
        crate::error::lemma_rank_bijective(plans.last().spec_category(), (ranks - 1) as u8);
        lemma_total_concat(
            canonical_upto(plans, (ranks - 1) as nat),
            of_category(plans, category),
        );
        lemma_total_concat(
            canonical_upto(plans.drop_last(), (ranks - 1) as nat),
            of_category(plans.drop_last(), category),
        );
        if plans.last().spec_category() == category {
            assert(of_category(plans, category).drop_last() =~= of_category(
                plans.drop_last(),
                category,
            ));
        }
    }
}

/// The total over two lists, one after the other, is the sum of the totals.
pub proof fn lemma_total_concat(first: Seq<ActionPlan>, second: Seq<ActionPlan>)
    ensures
        total_contribution(first + second) == total_contribution(first) + total_contribution(
            second,
        ),
    decreases second.len(),
{
    if second.len() == 0 {
        assert(first + second =~= first);
    } else {
        assert((first + second).drop_last() =~= first + second.drop_last());
        assert((first + second).last() == second.last());
        lemma_total_concat(first, second.drop_last());
    }
}

/// The canonical order contributes what the plan contributes.
pub proof fn lemma_total_canonical(plans: Seq<ActionPlan>)
    ensures
        total_contribution(canonical(plans)) == total_contribution(plans),
    decreases plans.len(),
{
    if plans.len() == 0 {
        assert(plans =~= Seq::<ActionPlan>::empty());
        crate::order::lemma_canonical_empty(CATEGORY_COUNT as nat);
        assert(canonical(plans) =~= Seq::<ActionPlan>::empty());
    } else {
        lemma_total_canonical(plans.drop_last());
        lemma_total_canonical_step(plans, CATEGORY_COUNT as nat);
        crate::error::lemma_rank_bijective(plans.last().spec_category(), 0);
    }
}

/// The sum of the blinding factors of a plan is the sum of the scalars that
/// its actions contribute, reduced modulo the group order. It does not depend
/// on the order in which the contributions are added.
pub proof fn lemma_blinding_sum_is_total(plans: Seq<ActionPlan>)
    ensures
        scalar_value(blinding_sum_upto(plans, CATEGORY_COUNT as nat)) == total_contribution(plans)
            % scalar_modulus(),
{
    lemma_blinding_sum_canonical(plans, CATEGORY_COUNT as nat);
    lemma_blinding_sum_value(canonical(plans), zero_scalar());
    lemma_total_canonical(plans);
    crate::blinding::lemma_zero_scalar(32);
    crate::bytes::lemma_le_value_zero(zero_scalar());
}

/// The total of a list is a fold over it.
pub proof fn lemma_total_is_fold(plans: Seq<ActionPlan>)
    ensures
        total_contribution(plans) == plans.fold_left(
            0nat,
            |sum: nat, plan: ActionPlan| sum + contribution(plan),
        ),
    decreases plans.len(),
{
    if plans.len() > 0 {
        lemma_total_is_fold(plans.drop_last());
    }
}

/// Two plans that hold the same actions, in whatever order, have the same sum
/// of blinding factors.
pub proof fn lemma_blinding_sum_order_independent(first: Seq<ActionPlan>, second: Seq<ActionPlan>)
    requires
        first.to_multiset() == second.to_multiset(),
    ensures
        scalar_value(blinding_sum_upto(first, CATEGORY_COUNT as nat)) == scalar_value(
            blinding_sum_upto(second, CATEGORY_COUNT as nat),
        ),
{
    let f = |sum: nat, plan: ActionPlan| sum + contribution(plan);
    lemma_total_is_fold(first);
    lemma_total_is_fold(second);
    assert(vstd::seq_lib::commutative_foldl(f));
    vstd::seq_lib::lemma_fold_left_permutation(first, second, f, 0nat);
    lemma_blinding_sum_is_total(first);
    lemma_blinding_sum_is_total(second);
}

/// Two lists of actions that are built from the same plans with the same
/// keys, signatures and proofs are the same, action for action.
pub proof fn lemma_built_is_determined(
    first: Seq<Action>,
    second: Seq<Action>,
    plans: Seq<ActionPlan>,
    ranks: nat,
    ctx: Context,
)
    requires
        built_upto(first, plans, ranks, ctx),
        built_upto(second, plans, ranks, ctx),
    ensures
        first.len() == second.len(),
        forall|i: int| 0 <= i < first.len() ==> (#[trigger] first[i]).spec_same(second[i]),
    decreases ranks,
{
    if ranks > 0 {
        let block = of_category(plans, Category::spec_from_rank((ranks - 1) as u8));
        lemma_built_follows_canonical(first, plans, ranks, ctx);
        lemma_built_follows_canonical(second, plans, ranks, ctx);
        let split = first.len() - block.len();
        lemma_built_is_determined(
            first.take(split),
            second.take(split),
            plans,
            (ranks - 1) as nat,
            ctx,
        );
        assert forall|i: int| 0 <= i < first.len() implies (#[trigger] first[i]).spec_same(
            second[i],
        ) by {
            if i < split {
                assert(first.take(split)[i] == first[i]);
                assert(second.take(split)[i] == second[i]);
                assert(first.take(split)[i].spec_same(second.take(split)[i]));
            } else {
                assert(first.skip(split)[i - split] == first[i]);
                assert(second.skip(split)[i - split] == second[i]);
                assert(built_from(first.skip(split)[i - split], block[i - split], i - split, ctx));
                assert(built_from(second.skip(split)[i - split], block[i - split], i - split, ctx));
            }
        }
    }
}

/// The sequential and the concurrent build agree. Two transactions that are
/// built from one plan with the same viewing key, signatures, proofs and
/// signing randomness, the one by [`TransactionPlan::build`] and the other by
/// [`TransactionPlan::build_concurrent`], list the same actions in the same
/// order, and have the same header, clues, memo, anchor and binding
/// signature.
pub proof fn lemma_builds_agree(
    sequential: Transaction,
    concurrent: Transaction,
    plan: TransactionPlan,
    seed: Seq<u8>,
    fvk: FullViewingKey,
    auth_data: AuthorizationData,
    witness_data: WitnessData,
)
    requires
        spec_built(sequential, plan, seed, fvk, auth_data, witness_data),
        spec_built(concurrent, plan, seed, fvk, auth_data, witness_data),
    ensures
        sequential.transaction_body.actions@.len() == concurrent.transaction_body.actions@.len(),
        forall|i: int|
            0 <= i < sequential.transaction_body.actions@.len() ==> (
            #[trigger] sequential.transaction_body.actions@[i]).spec_same(
                concurrent.transaction_body.actions@[i],
            ),
        sequential.transaction_body.spec_header() == concurrent.transaction_body.spec_header(),
        sequential.transaction_body.fmd_clues@ == concurrent.transaction_body.fmd_clues@,
        sequential.anchor == concurrent.anchor,
        sequential.binding_sig == concurrent.binding_sig,
{
    let ctx = spec_context(plan, fvk, auth_data, witness_data);
    lemma_built_is_determined(
        sequential.transaction_body.actions@,
        concurrent.transaction_body.actions@,
        plan.actions@,
        CATEGORY_COUNT as nat,
        ctx,
    );
    lemma_auth_hash_agrees(sequential, plan, seed, fvk, auth_data, witness_data);
    lemma_auth_hash_agrees(concurrent, plan, seed, fvk, auth_data, witness_data);
    assert(sequential.binding_sig =~= concurrent.binding_sig);
}

} // verus!
