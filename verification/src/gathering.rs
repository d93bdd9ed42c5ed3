//! Why gathering by key gives the actions of the sequential builder.

use vstd::prelude::*;
use crate::action::Action;
use crate::assemble::{built_from, spec_missing, Context};
use crate::builder::{
    built_upto, first_missing_in, first_missing_upto, lemma_first_missing_prefix,
    lemma_first_missing_stays,
};
use crate::concurrent::{
    cheap_built, delivered, find_result, first_undelivered_in, first_undelivered_upto,
    gathered_upto, lemma_unit_builds, placed, spec_input, units_of, units_upto, UnitKey,
    UnitResult, WorkUnit,
};
use crate::error::{lemma_rank_bijective, Category, CATEGORY_COUNT};
use crate::order::{lemma_of_category_members, of_category};
use crate::plan::ActionPlan;
use crate::witness::Proof;

verus! {

/// The results of units that have all run to their end, in the order of the
/// units.
pub open spec fn completed(units: Seq<WorkUnit>) -> Seq<UnitResult> {
    Seq::new(
        units.len(),
        |i: int| UnitResult { key: units[i].key, outcome: Some(units[i].input.spec_run()) },
    )
}

/// Looking a key up in two lists, one after the other, finds what the first
/// list holds under the key, and else what the second holds.
pub proof fn lemma_find_concat(first: Seq<UnitResult>, second: Seq<UnitResult>, key: UnitKey)
    ensures
        find_result(first + second, key) == match find_result(first, key) {
            Some(result) => Some(result),
            None => find_result(second, key),
        },
    decreases first.len(),
{
    if first.len() == 0 {
        assert(first + second =~= second);
    } else {
        assert((first + second).drop_first() =~= first.drop_first() + second);
        if first[0].key != key {
            lemma_find_concat(first.drop_first(), second, key);
        }
    }
}

/// A key under which no result was reported is not found.
pub proof fn lemma_find_none(results: Seq<UnitResult>, key: UnitKey)
    requires
        forall|i: int| 0 <= i < results.len() ==> (#[trigger] results[i]).key != key,
    ensures
        find_result(results, key) is None,
    decreases results.len(),
{
    if results.len() > 0 {
        assert forall|i: int| 0 <= i < results.drop_first().len() implies (
        #[trigger] results.drop_first()[i]).key != key by {
            assert(results.drop_first()[i] == results[i + 1]);
        }
        lemma_find_none(results.drop_first(), key);
    }
}

/// The result at place `k` is found under its key if no result before it was
/// reported under that key.
pub proof fn lemma_find_first(results: Seq<UnitResult>, key: UnitKey, k: int)
    requires
        0 <= k < results.len(),
        results[k].key == key,
        forall|i: int| 0 <= i < k ==> (#[trigger] results[i]).key != key,
    ensures
        find_result(results, key) == Some(results[k]),
    decreases k,
{
    if k > 0 {
        assert(results[0].key != key);
        assert forall|i: int| 0 <= i < k - 1 implies (#[trigger] results.drop_first()[i]).key
            != key by {
            assert(results.drop_first()[i] == results[i + 1]);
        }
        assert(results.drop_first()[k - 1] == results[k]);
        lemma_find_first(results.drop_first(), key, k - 1);
    }
}

/// The units of the first `ranks` categories are keyed by those categories.
pub proof fn lemma_units_categories(plans: Seq<ActionPlan>, ranks: nat, ctx: Context)
    requires
        ranks <= CATEGORY_COUNT,
    ensures
        forall|i: int|
            0 <= i < units_upto(plans, ranks, ctx).len() ==> (#[trigger] units_upto(
                plans,
                ranks,
                ctx,
            )[i]).key.category.spec_rank() < ranks,
    decreases ranks,
{
    if ranks > 0 {
        lemma_units_categories(plans, (ranks - 1) as nat, ctx);
        let category = Category::spec_from_rank((ranks - 1) as u8);
        lemma_rank_bijective(category, (ranks - 1) as u8);
        let before = units_upto(plans, (ranks - 1) as nat, ctx);
        let block = units_of(plans, category, ctx);
        assert forall|i: int| 0 <= i < units_upto(plans, ranks, ctx).len() implies (
        #[trigger] units_upto(plans, ranks, ctx)[i]).key.category.spec_rank() < ranks by {
            if i < before.len() {
                assert(units_upto(plans, ranks, ctx)[i] == before[i]);
            } else {
                assert(units_upto(plans, ranks, ctx)[i] == block[i - before.len()]);
            }
        }
    }
}

/// Where every unit has run to its end, the result of the unit for the plan
/// at place `k` of `category` is found under the key of that place.
pub proof fn lemma_found_in_units(
    plans: Seq<ActionPlan>,
    ranks: nat,
    ctx: Context,
    category: Category,
    k: int,
)
    requires
        plans.len() <= usize::MAX,
        category.spec_is_costly(),
        0 <= k < of_category(plans, category).len(),
        category.spec_rank() < ranks <= CATEGORY_COUNT,
    ensures
        find_result(
            completed(units_upto(plans, ranks, ctx)),
            UnitKey { category, index: k as usize },
        ) == Some(
            UnitResult {
                key: UnitKey { category, index: k as usize },
                outcome: Some(spec_input(of_category(plans, category)[k], k, ctx).spec_run()),
            },
        ),
    decreases ranks,
{
    let key = UnitKey { category, index: k as usize };
    let last = Category::spec_from_rank((ranks - 1) as u8);
    lemma_rank_bijective(category, (ranks - 1) as u8);
    let before = units_upto(plans, (ranks - 1) as nat, ctx);
    let block = units_of(plans, last, ctx);
    assert(completed(before + block) =~= completed(before) + completed(block));
    lemma_find_concat(completed(before), completed(block), key);
    if category.spec_rank() < ranks - 1 {
        lemma_found_in_units(plans, (ranks - 1) as nat, ctx, category, k);
    } else {
        assert(last == category);
        lemma_units_categories(plans, (ranks - 1) as nat, ctx);
        assert forall|i: int| 0 <= i < completed(before).len() implies (#[trigger] completed(
            before,
        )[i]).key != key by {
            assert(before[i].key.category.spec_rank() < ranks - 1);
        }
        lemma_find_none(completed(before), key);
        lemma_of_category_members(plans, category);
        let results = completed(block);
        assert forall|i: int| 0 <= i < k implies (#[trigger] results[i]).key != key by {
            assert(results[i].key.index == i as usize);
        }
        lemma_find_first(results, key, k);
    }
}

/// A result that is found among the results of fewer categories is found
/// among the results of more.
pub proof fn lemma_found_stays(
    plans: Seq<ActionPlan>,
    ranks: nat,
    more: nat,
    ctx: Context,
    key: UnitKey,
)
    requires
        ranks <= more,
        find_result(completed(units_upto(plans, ranks, ctx)), key) is Some,
    ensures
        find_result(completed(units_upto(plans, more, ctx)), key) == find_result(
            completed(units_upto(plans, ranks, ctx)),
            key,
        ),
    decreases more - ranks,
{
    if ranks < more {
        lemma_found_stays(plans, ranks, (more - 1) as nat, ctx, key);
        let before = units_upto(plans, (more - 1) as nat, ctx);
        let block = units_of(plans, Category::spec_from_rank((more - 1) as u8), ctx);
        assert(completed(before + block) =~= completed(before) + completed(block));
        lemma_find_concat(completed(before), completed(block), key);
    }
}

/// Where no proof is missing for a list of plans, none is missing for any one
/// of them.
pub proof fn lemma_none_missing_in(plans: Seq<ActionPlan>, proofs: Seq<Proof>, k: int)
    requires
        0 <= k < plans.len(),
        first_missing_in(plans, proofs) is None,
    ensures
        spec_missing(plans[k], proofs) is None,
{
    if spec_missing(plans[k], proofs) is Some {
        assert(plans.take(k + 1).drop_last() =~= plans.take(k));
        assert(plans.take(k + 1).last() == plans[k]);
        lemma_first_missing_prefix(plans, k + 1, proofs);
    }
}

/// Where no proof is missing for a plan, none is missing for any one category
/// of it.
pub proof fn lemma_none_missing_of(plans: Seq<ActionPlan>, proofs: Seq<Proof>, category: Category)
    requires
        first_missing_upto(plans, CATEGORY_COUNT as nat, proofs) is None,
    ensures
        first_missing_in(of_category(plans, category), proofs) is None,
{
    let ranks = (category.spec_rank() + 1) as nat;
    lemma_rank_bijective(category, 0);
    if first_missing_upto(plans, ranks, proofs) is Some {
        lemma_first_missing_stays(plans, ranks, CATEGORY_COUNT as nat, proofs);
    }
}

/// What holds of a build in which no signature and no proof is missing.
pub open spec fn well_supplied(plans: Seq<ActionPlan>, ctx: Context) -> bool {
    &&& plans.len() <= usize::MAX
    &&& ctx.spend_auths.len() == of_category(plans, Category::Spend).len()
    &&& ctx.delegator_vote_auths.len() == of_category(plans, Category::DelegatorVote).len()
    &&& first_missing_upto(plans, CATEGORY_COUNT as nat, ctx.proofs) is None
}

/// Where every unit has run to its end, what is delivered for the plan at
/// place `k` of a category is the action that the sequential builder makes
/// from that plan.
pub proof fn lemma_delivered_is_built(
    plans: Seq<ActionPlan>,
    ctx: Context,
    category: Category,
    k: int,
)
    requires
        well_supplied(plans, ctx),
        category.spec_is_costly(),
        0 <= k < of_category(plans, category).len(),
    ensures
        delivered(
            completed(units_upto(plans, CATEGORY_COUNT as nat, ctx)),
            category,
            k,
        ) is Some,
        built_from(
            delivered(
                completed(units_upto(plans, CATEGORY_COUNT as nat, ctx)),
                category,
                k,
            ).unwrap(),
            of_category(plans, category)[k],
            k,
            ctx,
        ),
{
    let block = of_category(plans, category);
    let ranks = (category.spec_rank() + 1) as nat;
    let key = UnitKey { category, index: k as usize };
    lemma_rank_bijective(category, 0);
    lemma_found_in_units(plans, ranks, ctx, category, k);
    lemma_found_stays(plans, ranks, CATEGORY_COUNT as nat, ctx, key);
    lemma_of_category_members(plans, category);
    lemma_none_missing_of(plans, ctx.proofs, category);
    lemma_none_missing_in(block, ctx.proofs, k);
    assert(block[k].spec_category() == category);
    lemma_unit_builds(block[k], k, ctx);
}

/// An action that is made on the spot is the action that the sequential
/// builder makes.
pub proof fn lemma_cheap_is_built(action: Action, plan: ActionPlan, index: int, ctx: Context)
    requires
        cheap_built(action, plan),
    ensures
        built_from(action, plan, index, ctx),
{
}

/// Where every unit has run to its end, the actions that are gathered are the
/// actions that the sequential builder makes.
pub proof fn lemma_gathered_is_built(
    actions: Seq<Action>,
    plans: Seq<ActionPlan>,
    ranks: nat,
    ctx: Context,
)
    requires
        well_supplied(plans, ctx),
        ranks <= CATEGORY_COUNT,
        gathered_upto(
            actions,
            plans,
            ranks,
            completed(units_upto(plans, CATEGORY_COUNT as nat, ctx)),
        ),
    ensures
        built_upto(actions, plans, ranks, ctx),
    decreases ranks,
{
    if ranks > 0 {
        let results = completed(units_upto(plans, CATEGORY_COUNT as nat, ctx));
        let category = Category::spec_from_rank((ranks - 1) as u8);
        let block = of_category(plans, category);
        let split = actions.len() - block.len();
        lemma_gathered_is_built(actions.take(split), plans, (ranks - 1) as nat, ctx);
        let tail = actions.skip(split);
        assert forall|k: int| 0 <= k < block.len() implies #[trigger] built_from(
            tail[k],
            block[k],
            k,
            ctx,
        ) by {
            assert(placed(tail[k], block[k], category, k, results));
            if category.spec_is_costly() {
                lemma_delivered_is_built(plans, ctx, category, k);
            } else {
                lemma_cheap_is_built(tail[k], block[k], k, ctx);
            }
        }
    }
}

/// Where every unit has run to its end, every place of a category was
/// delivered to.
pub proof fn lemma_block_delivered(
    plans: Seq<ActionPlan>,
    ctx: Context,
    category: Category,
    len: nat,
)
    requires
        well_supplied(plans, ctx),
        category.spec_is_costly(),
        len <= of_category(plans, category).len(),
    ensures
        first_undelivered_in(
            len,
            category,
            completed(units_upto(plans, CATEGORY_COUNT as nat, ctx)),
        ) is None,
    decreases len,
{
    if len > 0 {
        lemma_block_delivered(plans, ctx, category, (len - 1) as nat);
        lemma_delivered_is_built(plans, ctx, category, len - 1);
    }
}

/// Where every unit has run to its end, nothing is left undelivered.
pub proof fn lemma_all_delivered(plans: Seq<ActionPlan>, ranks: nat, ctx: Context)
    requires
        well_supplied(plans, ctx),
        ranks <= CATEGORY_COUNT,
    ensures
        first_undelivered_upto(
            plans,
            ranks,
            completed(units_upto(plans, CATEGORY_COUNT as nat, ctx)),
        ) is None,
    decreases ranks,
{
    if ranks > 0 {
        lemma_all_delivered(plans, (ranks - 1) as nat, ctx);
        let category = Category::spec_from_rank((ranks - 1) as u8);
        if category.spec_is_costly() {
            lemma_block_delivered(plans, ctx, category, of_category(plans, category).len());
        }
    }
}

} // verus!
