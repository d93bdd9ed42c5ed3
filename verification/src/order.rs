//! The canonical order of actions.
//!
//! A plan may list its actions in any order. A transaction lists them by
//! category, in the order in which [`Category`] names the categories, and
//! within a category in the order of the plan. Whoever builds a transaction
//! and whoever hashes a plan ahead of building it go by this one definition.

use vstd::prelude::*;
use crate::error::{Category, CATEGORY_COUNT};
use crate::plan::{
    ActionPlan, DelegatorVotePlan, OutputPlan, SpendPlan, SwapClaimPlan, SwapPlan,
    UndelegateClaimPlan,
};
use crate::transaction::TransactionPlan;

verus! {

/// The plans among `plans` that are of `category`, in their order.
pub open spec fn of_category(plans: Seq<ActionPlan>, category: Category) -> Seq<ActionPlan>
    decreases plans.len(),
{
    if plans.len() == 0 {
        Seq::empty()
    } else {
        let before = of_category(plans.drop_last(), category);
        if plans.last().spec_category() == category {
            before.push(plans.last())
        } else {
            before
        }
    }
}

/// The plans among `plans` whose category is one of the first `ranks`
/// categories, in canonical order.
pub open spec fn canonical_upto(plans: Seq<ActionPlan>, ranks: nat) -> Seq<ActionPlan>
    decreases ranks,
{
    if ranks == 0 {
        Seq::empty()
    } else {
        canonical_upto(plans, (ranks - 1) as nat) + of_category(
            plans,
            Category::spec_from_rank((ranks - 1) as u8),
        )
    }
}

/// All of `plans`, in canonical order.
pub open spec fn canonical(plans: Seq<ActionPlan>) -> Seq<ActionPlan> {
    canonical_upto(plans, CATEGORY_COUNT as nat)
}

/// Taking one more plan into account adds it to its category and leaves every
/// other category as it was.
pub proof fn lemma_of_category_step(plans: Seq<ActionPlan>, j: int, category: Category)
    requires
        0 <= j < plans.len(),
    ensures
        of_category(plans.take(j + 1), category) == if plans[j].spec_category() == category {
            of_category(plans.take(j), category).push(plans[j])
        } else {
            of_category(plans.take(j), category)
        },
{
    assert(plans.take(j + 1).drop_last() =~= plans.take(j));
    assert(plans.take(j + 1).last() == plans[j]);
}

/// Every plan that is selected for a category is of that category and is one
/// of the plans that were given.
pub proof fn lemma_of_category_members(plans: Seq<ActionPlan>, category: Category)
    ensures
        of_category(plans, category).len() <= plans.len(),
        forall|k: int|
            0 <= k < of_category(plans, category).len() ==> {
                &&& (#[trigger] of_category(plans, category)[k]).spec_category() == category
                &&& plans.contains(of_category(plans, category)[k])
            },
    decreases plans.len(),
{
    if plans.len() > 0 {
        lemma_of_category_members(plans.drop_last(), category);
        let before = of_category(plans.drop_last(), category);
        assert forall|k: int| 0 <= k < of_category(plans, category).len() implies plans.contains(
            #[trigger] of_category(plans, category)[k],
        ) by {
            if k < before.len() {
                let i = choose|i: int|
                    0 <= i < plans.drop_last().len() && plans.drop_last()[i] == before[k];
                assert(plans[i] == before[k]);
            } else {
                assert(plans[plans.len() - 1] == plans.last());
            }
        }
    }
}

/// What is selected from the first `j` plans is the beginning of what is
/// selected from all of them.
pub proof fn lemma_of_category_prefix(plans: Seq<ActionPlan>, j: int, category: Category)
    requires
        0 <= j <= plans.len(),
    ensures
        of_category(plans.take(j), category).len() <= of_category(plans, category).len(),
        of_category(plans.take(j), category) == of_category(plans, category).take(
            of_category(plans.take(j), category).len() as int,
        ),
    decreases plans.len() - j,
{
    if j == plans.len() {
        assert(plans.take(j) =~= plans);
        assert(of_category(plans, category).take(of_category(plans, category).len() as int)
            =~= of_category(plans, category));
    } else {
        lemma_of_category_step(plans, j, category);
        lemma_of_category_prefix(plans, j + 1, category);
        let shorter = of_category(plans.take(j), category);
        let longer = of_category(plans.take(j + 1), category);
        let all = of_category(plans, category);
        assert(shorter =~= longer.take(shorter.len() as int));
        assert(shorter =~= all.take(shorter.len() as int));
    }
}

/// The canonical order up to fewer categories is the beginning of the
/// canonical order up to more.
pub proof fn lemma_canonical_prefix(plans: Seq<ActionPlan>, fewer: nat, more: nat)
    requires
        fewer <= more,
    ensures
        canonical_upto(plans, fewer).len() <= canonical_upto(plans, more).len(),
        canonical_upto(plans, fewer) == canonical_upto(plans, more).take(
            canonical_upto(plans, fewer).len() as int,
        ),
    decreases more - fewer,
{
    let short = canonical_upto(plans, fewer);
    if fewer == more {
        assert(short =~= short.take(short.len() as int));
    } else {
        lemma_canonical_prefix(plans, fewer, (more - 1) as nat);
        let long = canonical_upto(plans, more);
        assert(short =~= long.take(short.len() as int));
    }
}

/// Taking one more plan into account lengthens the canonical order by one if
/// the category of that plan is among the categories counted, and not at all
/// otherwise.
pub proof fn lemma_canonical_upto_len_step(plans: Seq<ActionPlan>, ranks: nat)
    requires
        plans.len() > 0,
        ranks <= CATEGORY_COUNT,
    ensures
        canonical_upto(plans, ranks).len() == canonical_upto(plans.drop_last(), ranks).len() + (
        if plans.last().spec_category().spec_rank() < ranks {
            1nat
        } else {
            0nat
        }),
    decreases ranks,
{
    if ranks > 0 {
        lemma_canonical_upto_len_step(plans, (ranks - 1) as nat);
        crate::error::lemma_rank_bijective(plans.last().spec_category(), (ranks - 1) as u8);
    }
}

/// The canonical order holds as many plans as were given.
pub proof fn lemma_canonical_len(plans: Seq<ActionPlan>)
    ensures
        canonical(plans).len() == plans.len(),
    decreases plans.len(),
{
    if plans.len() == 0 {
        assert(plans =~= Seq::<ActionPlan>::empty());
        lemma_canonical_empty(CATEGORY_COUNT as nat);
    } else {
        lemma_canonical_len(plans.drop_last());
        lemma_canonical_upto_len_step(plans, CATEGORY_COUNT as nat);
        crate::error::lemma_rank_bijective(plans.last().spec_category(), 0);
    }
}

/// No plans, nothing to order.
pub proof fn lemma_canonical_empty(ranks: nat)
    ensures
        canonical_upto(Seq::empty(), ranks).len() == 0,
    decreases ranks,
{
    if ranks > 0 {
        lemma_canonical_empty((ranks - 1) as nat);
    }
}

/// Taking one more plan into account adds it to the canonical order if its
/// category is among the categories counted, and changes nothing else.
pub proof fn lemma_canonical_upto_multiset_step(plans: Seq<ActionPlan>, ranks: nat)
    requires
        plans.len() > 0,
        ranks <= CATEGORY_COUNT,
    ensures
        canonical_upto(plans, ranks).to_multiset() == if plans.last().spec_category().spec_rank()
            < ranks {
            canonical_upto(plans.drop_last(), ranks).to_multiset().insert(plans.last())
        } else {
            canonical_upto(plans.drop_last(), ranks).to_multiset()
        },
    decreases ranks,
{
    broadcast use vstd::seq_lib::group_to_multiset_ensures;

    if ranks > 0 {
        lemma_canonical_upto_multiset_step(plans, (ranks - 1) as nat);
        let category = Category::spec_from_rank((ranks - 1) as u8);
        crate::error::lemma_rank_bijective(plans.last().spec_category(), (ranks - 1) as u8);
        let before = canonical_upto(plans, (ranks - 1) as nat);
        let earlier = canonical_upto(plans.drop_last(), (ranks - 1) as nat);
        let block = of_category(plans, category);
        let shorter = of_category(plans.drop_last(), category);
        vstd::seq_lib::lemma_multiset_commutative(before, block);
        vstd::seq_lib::lemma_multiset_commutative(earlier, shorter);
        if plans.last().spec_category() == category {
            assert(block =~= shorter.push(plans.last()));
            assert(canonical_upto(plans, ranks).to_multiset() =~= canonical_upto(
                plans.drop_last(),
                ranks,
            ).to_multiset().insert(plans.last()));
        } else if plans.last().spec_category().spec_rank() < ranks {
            assert(canonical_upto(plans, ranks).to_multiset() =~= canonical_upto(
                plans.drop_last(),
                ranks,
            ).to_multiset().insert(plans.last()));
        } else {
            assert(canonical_upto(plans, ranks).to_multiset() =~= canonical_upto(
                plans.drop_last(),
                ranks,
            ).to_multiset());
        }
    } else {
        assert(canonical_upto(plans, 0) =~= canonical_upto(plans.drop_last(), 0));
    }
}

/// The canonical order holds the plans that were given, each as often as it
/// was given, and nothing else: ordering loses no action and makes none up.
pub proof fn lemma_canonical_is_permutation(plans: Seq<ActionPlan>)
    ensures
        canonical(plans).to_multiset() == plans.to_multiset(),
    decreases plans.len(),
{
    broadcast use vstd::seq_lib::group_to_multiset_ensures;

    if plans.len() == 0 {
        assert(plans =~= Seq::<ActionPlan>::empty());
        lemma_canonical_empty(CATEGORY_COUNT as nat);
        assert(canonical(plans) =~= Seq::<ActionPlan>::empty());
    } else {
        lemma_canonical_is_permutation(plans.drop_last());
        lemma_canonical_upto_multiset_step(plans, CATEGORY_COUNT as nat);
        crate::error::lemma_rank_bijective(plans.last().spec_category(), 0);
        assert(plans =~= plans.drop_last().push(plans.last()));
    }
}

/// Counts the plans among `plans` that are of `category`.
pub fn count_category(plans: &Vec<ActionPlan>, category: Category) -> (count: usize)
    ensures
        count == of_category(plans@, category).len(),
{
    let n = plans.len();
    let mut count: usize = 0;
    let mut j: usize = 0;
    while j < n
        invariant
            j <= n,
            n == plans@.len(),
            count == of_category(plans@.take(j as int), category).len(),
            count <= j,
        decreases n - j,
    {
        proof {
            lemma_of_category_step(plans@, j as int, category);
        }
        if plans[j].category() == category {
            count += 1;
        }
        j += 1;
    }
    assert(plans@.take(n as int) =~= plans@);
    count
}

impl TransactionPlan {
    /// The planned spends, in the order of the plan.
    pub fn spend_plans(&self) -> (plans: Vec<SpendPlan>)
        ensures
            plans@.len() == of_category(self.actions@, Category::Spend).len(),
            forall|i: int|
                0 <= i < plans@.len() ==> ActionPlan::Spend(#[trigger] plans@[i]) == of_category(
                    self.actions@,
                    Category::Spend,
                )[i],
    {
        let mut plans: Vec<SpendPlan> = Vec::new();
        let n = self.actions.len();
        let mut j: usize = 0;
        assert(self.actions@.take(0) =~= Seq::<ActionPlan>::empty());
        while j < n
            invariant
                j <= n,
                n == self.actions@.len(),
                plans@.len() == of_category(self.actions@.take(j as int), Category::Spend).len(),
                forall|i: int|
                    0 <= i < plans@.len() ==> ActionPlan::Spend(#[trigger] plans@[i])
                        == of_category(self.actions@.take(j as int), Category::Spend)[i],
            decreases n - j,
        {
            proof {
                lemma_of_category_step(self.actions@, j as int, Category::Spend);
            }
            match &self.actions[j] {
                ActionPlan::Spend(plan) => {
                    plans.push(*plan);
                },
                _ => {},
            }
            j += 1;
        }
        assert(self.actions@.take(n as int) =~= self.actions@);
        plans
    }

    /// The planned outputs, in the order of the plan.
    pub fn output_plans(&self) -> (plans: Vec<OutputPlan>)
        ensures
            plans@.len() == of_category(self.actions@, Category::Output).len(),
            forall|i: int|
                0 <= i < plans@.len() ==> ActionPlan::Output(#[trigger] plans@[i]) == of_category(
                    self.actions@,
                    Category::Output,
                )[i],
    {
        let mut plans: Vec<OutputPlan> = Vec::new();
        let n = self.actions.len();
        let mut j: usize = 0;
        assert(self.actions@.take(0) =~= Seq::<ActionPlan>::empty());
        while j < n
            invariant
                j <= n,
                n == self.actions@.len(),
                plans@.len() == of_category(self.actions@.take(j as int), Category::Output).len(),
                forall|i: int|
                    0 <= i < plans@.len() ==> ActionPlan::Output(#[trigger] plans@[i])
                        == of_category(self.actions@.take(j as int), Category::Output)[i],
            decreases n - j,
        {
            proof {
                lemma_of_category_step(self.actions@, j as int, Category::Output);
            }
            match &self.actions[j] {
                ActionPlan::Output(plan) => {
                    plans.push(*plan);
                },
                _ => {},
            }
            j += 1;
        }
        assert(self.actions@.take(n as int) =~= self.actions@);
        plans
    }

    /// The planned swaps, in the order of the plan.
    pub fn swap_plans(&self) -> (plans: Vec<SwapPlan>)
        ensures
            plans@.len() == of_category(self.actions@, Category::Swap).len(),
            forall|i: int|
                0 <= i < plans@.len() ==> ActionPlan::Swap(#[trigger] plans@[i]) == of_category(
                    self.actions@,
                    Category::Swap,
                )[i],
    {
        let mut plans: Vec<SwapPlan> = Vec::new();
        let n = self.actions.len();
        let mut j: usize = 0;
        assert(self.actions@.take(0) =~= Seq::<ActionPlan>::empty());
        while j < n
            invariant
                j <= n,
                n == self.actions@.len(),
                plans@.len() == of_category(self.actions@.take(j as int), Category::Swap).len(),
                forall|i: int|
                    0 <= i < plans@.len() ==> ActionPlan::Swap(#[trigger] plans@[i])
                        == of_category(self.actions@.take(j as int), Category::Swap)[i],
            decreases n - j,
        {
            proof {
                lemma_of_category_step(self.actions@, j as int, Category::Swap);
            }
            match &self.actions[j] {
                ActionPlan::Swap(plan) => {
                    plans.push(*plan);
                },
                _ => {},
            }
            j += 1;
        }
        assert(self.actions@.take(n as int) =~= self.actions@);
        plans
    }

    /// The planned swap claims, in the order of the plan.
    pub fn swap_claim_plans(&self) -> (plans: Vec<SwapClaimPlan>)
        ensures
            plans@.len() == of_category(self.actions@, Category::SwapClaim).len(),
            forall|i: int|
                0 <= i < plans@.len() ==> ActionPlan::SwapClaim(#[trigger] plans@[i]) == of_category(
                    self.actions@,
                    Category::SwapClaim,
                )[i],
    {
        let mut plans: Vec<SwapClaimPlan> = Vec::new();
        let n = self.actions.len();
        let mut j: usize = 0;
        assert(self.actions@.take(0) =~= Seq::<ActionPlan>::empty());
        while j < n
            invariant
                j <= n,
                n == self.actions@.len(),
                plans@.len() == of_category(self.actions@.take(j as int), Category::SwapClaim).len(),
                forall|i: int|
                    0 <= i < plans@.len() ==> ActionPlan::SwapClaim(#[trigger] plans@[i])
                        == of_category(self.actions@.take(j as int), Category::SwapClaim)[i],
            decreases n - j,
        {
            proof {
                lemma_of_category_step(self.actions@, j as int, Category::SwapClaim);
            }
            match &self.actions[j] {
                ActionPlan::SwapClaim(plan) => {
                    plans.push(*plan);
                },
                _ => {},
            }
            j += 1;
        }
        assert(self.actions@.take(n as int) =~= self.actions@);
        plans
    }

    /// The planned undelegate claims, in the order of the plan.
    pub fn undelegate_claim_plans(&self) -> (plans: Vec<UndelegateClaimPlan>)
        ensures
            plans@.len() == of_category(self.actions@, Category::UndelegateClaim).len(),
            forall|i: int|
                0 <= i < plans@.len() ==> ActionPlan::UndelegateClaim(#[trigger] plans@[i]) == of_category(
                    self.actions@,
                    Category::UndelegateClaim,
                )[i],
    {
        let mut plans: Vec<UndelegateClaimPlan> = Vec::new();
        let n = self.actions.len();
        let mut j: usize = 0;
        assert(self.actions@.take(0) =~= Seq::<ActionPlan>::empty());
        while j < n
            invariant
                j <= n,
                n == self.actions@.len(),
                plans@.len() == of_category(self.actions@.take(j as int), Category::UndelegateClaim).len(),
                forall|i: int|
                    0 <= i < plans@.len() ==> ActionPlan::UndelegateClaim(#[trigger] plans@[i])
                        == of_category(self.actions@.take(j as int), Category::UndelegateClaim)[i],
            decreases n - j,
        {
            proof {
                lemma_of_category_step(self.actions@, j as int, Category::UndelegateClaim);
            }
            match &self.actions[j] {
                ActionPlan::UndelegateClaim(plan) => {
                    plans.push(*plan);
                },
                _ => {},
            }
            j += 1;
        }
        assert(self.actions@.take(n as int) =~= self.actions@);
        plans
    }

    /// The planned delegator votes, in the order of the plan.
    pub fn delegator_vote_plans(&self) -> (plans: Vec<DelegatorVotePlan>)
        ensures
            plans@.len() == of_category(self.actions@, Category::DelegatorVote).len(),
            forall|i: int|
                0 <= i < plans@.len() ==> ActionPlan::DelegatorVote(#[trigger] plans@[i]) == of_category(
                    self.actions@,
                    Category::DelegatorVote,
                )[i],
    {
        let mut plans: Vec<DelegatorVotePlan> = Vec::new();
        let n = self.actions.len();
        let mut j: usize = 0;
        assert(self.actions@.take(0) =~= Seq::<ActionPlan>::empty());
        while j < n
            invariant
                j <= n,
                n == self.actions@.len(),
                plans@.len() == of_category(self.actions@.take(j as int), Category::DelegatorVote).len(),
                forall|i: int|
                    0 <= i < plans@.len() ==> ActionPlan::DelegatorVote(#[trigger] plans@[i])
                        == of_category(self.actions@.take(j as int), Category::DelegatorVote)[i],
            decreases n - j,
        {
            proof {
                lemma_of_category_step(self.actions@, j as int, Category::DelegatorVote);
            }
            match &self.actions[j] {
                ActionPlan::DelegatorVote(plan) => {
                    plans.push(*plan);
                },
                _ => {},
            }
            j += 1;
        }
        assert(self.actions@.take(n as int) =~= self.actions@);
        plans
    }
}

} // verus!
