//! Building a transaction with the costly actions made side by side.
//!
//! The actions that carry a proof are costly to make. The builder hands each
//! of them out as a unit of work of its own, with a key that says where its
//! action belongs: the category and the number of the plan within the
//! category. Whoever runs the units may run them in any order and at the same
//! time. The results are gathered by their keys, so that the transaction lists
//! its actions in canonical order whatever the order in which the units
//! finished. A unit that did not deliver fails the build as a whole.

use vstd::prelude::*;
use crate::action::{Action, DelegatorVote, Output, Spend, Swap, SwapClaim};
use crate::assemble::{built_from, Context};
use crate::error::Category;
use crate::keys::{FullViewingKey, OutgoingViewingKey};
use crate::plan::{
    ActionPlan, DelegatorVotePlan, OutputPlan, SpendPlan, SwapClaimPlan, SwapPlan,
};
use crate::assemble::spec_missing;
use crate::bytes::lemma_bytes32;
use crate::builder::{
    first_missing_in, first_missing_upto, lemma_first_missing_prefix, lemma_first_missing_stays,
    encrypt_memo, make_clues, payload_key, sign, spec_built, spec_context, spec_failure,
    spec_memo_key,
};
use crate::error::{Error, CATEGORY_COUNT};
use crate::blinding::zero_scalar;
use crate::gathering::{
    completed, lemma_all_delivered, lemma_gathered_is_built, well_supplied,
};
use crate::laws::{
    lemma_action_blinding_sum, lemma_blinding_sum_canonical, lemma_built_follows_canonical,
};
use crate::order::canonical;
use crate::transaction::{Transaction, TransactionBody, TransactionPlan};
use crate::order::{
    count_category, lemma_of_category_prefix, lemma_of_category_step, of_category,
};
use crate::witness::{find_proof, AuthorizationData, Proof, WitnessData};

verus! {

/// Where the action of a unit of work belongs: the category, and the number
/// of the plan among the plans of that category.
#[derive(Clone, Copy, Debug, PartialEq, Eq, Structural)]
pub struct UnitKey {
    pub category: Category,
    pub index: usize,
}

/// What a unit of work is given: its plan, and of the keys, signatures and
/// proofs only those that its action needs.
#[derive(Clone, Copy, Debug, PartialEq, Eq)]
#[allow(inconsistent_fields)]
pub enum UnitInput {
    Spend { plan: SpendPlan, fvk: FullViewingKey, auth_sig: [u8; 64], auth_path: Proof },
    Output { plan: OutputPlan, ovk: OutgoingViewingKey, memo_key: [u8; 32] },
    Swap { plan: SwapPlan, fvk: FullViewingKey },
    SwapClaim { plan: SwapClaimPlan, fvk: FullViewingKey, auth_path: Proof },
    DelegatorVote {
        plan: DelegatorVotePlan,
        fvk: FullViewingKey,
        auth_sig: [u8; 64],
        auth_path: Proof,
    },
}

/// What a unit of work delivers: the action it has made.
#[derive(Clone, Copy, Debug, PartialEq, Eq)]
pub enum UnitOutput {
    Spend(Spend),
    Output(Output),
    Swap(Swap),
    SwapClaim(SwapClaim),
    DelegatorVote(DelegatorVote),
}

/// One unit of work.
#[derive(Clone, Copy, Debug, PartialEq, Eq)]
pub struct WorkUnit {
    pub key: UnitKey,
    pub input: UnitInput,
}

/// How one unit of work ended: with the action it has made, or with nothing
/// where it failed or was given up.
#[derive(Clone, Copy, Debug, PartialEq, Eq)]
pub struct UnitResult {
    pub key: UnitKey,
    pub outcome: Option<UnitOutput>,
}

impl Category {
    /// Whether the actions of this category are made by units of work.
    pub open spec fn spec_is_costly(self) -> bool {
        self == Category::Spend || self == Category::Output || self == Category::Swap || self
            == Category::SwapClaim || self == Category::DelegatorVote
    }

    /// Whether the actions of this category are made by units of work.
    pub fn is_costly(&self) -> (costly: bool)
        ensures
            costly == self.spec_is_costly(),
    {
        match self {
            Category::Spend => true,
            Category::Output => true,
            Category::Swap => true,
            Category::SwapClaim => true,
            Category::DelegatorVote => true,
            _ => false,
        }
    }
}

impl UnitOutput {
    /// The category of the action that was made.
    pub open spec fn spec_category(self) -> Category {
        match self {
            UnitOutput::Spend(_) => Category::Spend,
            UnitOutput::Output(_) => Category::Output,
            UnitOutput::Swap(_) => Category::Swap,
            UnitOutput::SwapClaim(_) => Category::SwapClaim,
            UnitOutput::DelegatorVote(_) => Category::DelegatorVote,
        }
    }

    /// The category of the action that was made.
    pub fn category(&self) -> (category: Category)
        ensures
            category == self.spec_category(),
    {
        match self {
            UnitOutput::Spend(_) => Category::Spend,
            UnitOutput::Output(_) => Category::Output,
            UnitOutput::Swap(_) => Category::Swap,
            UnitOutput::SwapClaim(_) => Category::SwapClaim,
            UnitOutput::DelegatorVote(_) => Category::DelegatorVote,
        }
    }

    /// The action that was made.
    pub open spec fn spec_action(self) -> Action {
        match self {
            UnitOutput::Spend(spend) => Action::Spend(spend),
            UnitOutput::Output(output) => Action::Output(output),
            UnitOutput::Swap(swap) => Action::Swap(swap),
            UnitOutput::SwapClaim(claim) => Action::SwapClaim(claim),
            UnitOutput::DelegatorVote(vote) => Action::DelegatorVote(vote),
        }
    }

    /// The action that was made.
    pub fn into_action(self) -> (action: Action)
        ensures
            action == self.spec_action(),
    {
        match self {
            UnitOutput::Spend(spend) => Action::Spend(spend),
            UnitOutput::Output(output) => Action::Output(output),
            UnitOutput::Swap(swap) => Action::Swap(swap),
            UnitOutput::SwapClaim(claim) => Action::SwapClaim(claim),
            UnitOutput::DelegatorVote(vote) => Action::DelegatorVote(vote),
        }
    }
}

impl UnitInput {
    /// What [`WorkUnit::run`] makes of this input. For a swap the outgoing
    /// viewing key is derived from the viewing key that was given.
    pub open spec fn spec_run(self) -> UnitOutput {
        match self {
            UnitInput::Spend { plan, fvk, auth_sig, auth_path } => UnitOutput::Spend(
                Spend { plan, ak: fvk.ak, nk: fvk.nk, auth_sig, auth_path },
            ),
            UnitInput::Output { plan, ovk, memo_key } => UnitOutput::Output(
                Output { plan, ovk, memo_key },
            ),
            UnitInput::Swap { plan, fvk } => UnitOutput::Swap(
                Swap { plan, ovk: fvk.spec_outgoing() },
            ),
            UnitInput::SwapClaim { plan, fvk, auth_path } => UnitOutput::SwapClaim(
                SwapClaim {
                    plan,
                    nk: fvk.nk,
                    auth_path,
                    lambda_1_i: plan.spec_share().0,
                    lambda_2_i: plan.spec_share().1,
                },
            ),
            UnitInput::DelegatorVote { plan, fvk, auth_sig, auth_path } => UnitOutput::DelegatorVote(
                DelegatorVote { plan, ak: fvk.ak, nk: fvk.nk, auth_sig, auth_path },
            ),
        }
    }
}

impl WorkUnit {
    /// Makes the action of this unit. This is the costly step, and the one
    /// that may run beside the others.
    pub fn run(&self) -> (output: UnitOutput)
        ensures
            output == self.input.spec_run(),
    {
        match &self.input {
            UnitInput::Spend { plan, fvk, auth_sig, auth_path } => UnitOutput::Spend(
                plan.spend(fvk, *auth_sig, *auth_path),
            ),
            UnitInput::Output { plan, ovk, memo_key } => UnitOutput::Output(
                plan.output(ovk, memo_key),
            ),
            UnitInput::Swap { plan, fvk } => UnitOutput::Swap(plan.swap(fvk)),
            UnitInput::SwapClaim { plan, fvk, auth_path } => UnitOutput::SwapClaim(
                plan.swap_claim(fvk, auth_path),
            ),
            UnitInput::DelegatorVote { plan, fvk, auth_sig, auth_path } => UnitOutput::DelegatorVote(
                plan.delegator_vote(fvk, *auth_sig, *auth_path),
            ),
        }
    }

    /// Runs this unit and reports what it has delivered, under its key.
    pub fn complete(&self) -> (result: UnitResult)
        ensures
            result == (UnitResult { key: self.key, outcome: Some(self.input.spec_run()) }),
    {
        UnitResult { key: self.key, outcome: Some(self.run()) }
    }

    /// Reports that this unit has failed or was given up.
    pub fn fail(&self) -> (result: UnitResult)
        ensures
            result == (UnitResult { key: self.key, outcome: None }),
    {
        UnitResult { key: self.key, outcome: None }
    }
}

/// The input of the unit that makes the action of `plan`, the plan being
/// number `index` among the plans of its category.
pub open spec fn spec_input(plan: ActionPlan, index: int, ctx: Context) -> UnitInput {
    match plan {
        ActionPlan::Spend(planned) => UnitInput::Spend {
            plan: planned,
            fvk: ctx.fvk,
            auth_sig: ctx.spend_auths[index],
            auth_path: find_proof(ctx.proofs, plan.spec_commitment().unwrap()).unwrap(),
        },
        ActionPlan::Output(planned) => UnitInput::Output {
            plan: planned,
            ovk: ctx.ovk,
            memo_key: ctx.memo_key,
        },
        ActionPlan::Swap(planned) => UnitInput::Swap { plan: planned, fvk: ctx.fvk },
        ActionPlan::SwapClaim(planned) => UnitInput::SwapClaim {
            plan: planned,
            fvk: ctx.fvk,
            auth_path: find_proof(ctx.proofs, plan.spec_commitment().unwrap()).unwrap(),
        },
        ActionPlan::DelegatorVote(planned) => UnitInput::DelegatorVote {
            plan: planned,
            fvk: ctx.fvk,
            auth_sig: ctx.delegator_vote_auths[index],
            auth_path: find_proof(ctx.proofs, plan.spec_commitment().unwrap()).unwrap(),
        },
        _ => arbitrary(),
    }
}

/// A unit that is given what its plan needs makes the action that the
/// sequential builder makes from that plan.
pub proof fn lemma_unit_builds(plan: ActionPlan, index: int, ctx: Context)
    requires
        plan.spec_category().spec_is_costly(),
        crate::assemble::spec_missing(plan, ctx.proofs) is None,
        plan is Spend ==> 0 <= index < ctx.spend_auths.len(),
        plan is DelegatorVote ==> 0 <= index < ctx.delegator_vote_auths.len(),
    ensures
        spec_input(plan, index, ctx).spec_run().spec_category() == plan.spec_category(),
        built_from(spec_input(plan, index, ctx).spec_run().spec_action(), plan, index, ctx),
{
}

/// The units that make the actions of the plans in `block`, which are the
/// plans of `category`: one unit for one plan, keyed by the place of the plan.
pub open spec fn units_in(block: Seq<ActionPlan>, category: Category, ctx: Context) -> Seq<
    WorkUnit,
> {
    Seq::new(
        block.len(),
        |k: int|
            WorkUnit {
                key: UnitKey { category, index: k as usize },
                input: spec_input(block[k], k, ctx),
            },
    )
}

/// The units of one category: those of its plans where its actions are made
/// by units, and none otherwise.
pub open spec fn units_of(plans: Seq<ActionPlan>, category: Category, ctx: Context) -> Seq<
    WorkUnit,
> {
    if category.spec_is_costly() {
        units_in(of_category(plans, category), category, ctx)
    } else {
        Seq::empty()
    }
}

/// The units that make the costly actions of those of `plans` whose category
/// is among the first `ranks` categories, in canonical order.
pub open spec fn units_upto(plans: Seq<ActionPlan>, ranks: nat, ctx: Context) -> Seq<WorkUnit>
    decreases ranks,
{
    if ranks == 0 {
        Seq::empty()
    } else {
        units_upto(plans, (ranks - 1) as nat, ctx) + units_of(
            plans,
            Category::spec_from_rank((ranks - 1) as u8),
            ctx,
        )
    }
}

/// What [`make_unit`] returns for `plan`, the plan being number `index`
/// among the plans of its category: no unit where the action is not made by a
/// unit, a failure where the plan needs an inclusion proof that is not among
/// the proofs at hand, and otherwise the unit with what its plan needs.
pub open spec fn spec_make_unit(plan: ActionPlan, index: usize, ctx: Context) -> Result<
    Option<WorkUnit>,
    Error,
> {
    if !plan.spec_category().spec_is_costly() {
        Ok(None)
    } else {
        match spec_missing(plan, ctx.proofs) {
            Some(commitment) => Err(Error::MissingProof { commitment }),
            None => Ok(
                Some(
                    WorkUnit {
                        key: UnitKey { category: plan.spec_category(), index },
                        input: spec_input(plan, index as int, ctx),
                    },
                ),
            ),
        }
    }
}

/// Makes the unit of work for the action of `plan`, the plan being number
/// `index` among the plans of its category.
pub fn make_unit(
    plan: &ActionPlan,
    index: usize,
    fvk: &FullViewingKey,
    ovk: &OutgoingViewingKey,
    memo_key: &[u8; 32],
    auth_data: &AuthorizationData,
    witness_data: &WitnessData,
) -> (r: Result<Option<WorkUnit>, Error>)
    requires
        plan is Spend ==> index < auth_data.spend_auths@.len(),
        plan is DelegatorVote ==> index < auth_data.delegator_vote_auths@.len(),
    ensures
        r == spec_make_unit(
            *plan,
            index,
            Context {
                fvk: *fvk,
                ovk: *ovk,
                memo_key: *memo_key,
                spend_auths: auth_data.spend_auths@,
                delegator_vote_auths: auth_data.delegator_vote_auths@,
                proofs: witness_data.state_commitment_proofs@,
            },
        ),
{
    let key = UnitKey { category: plan.category(), index };
    match plan {
        ActionPlan::Spend(planned) => {
            let note_commitment = planned.note.commit();
            proof {
                lemma_bytes32(note_commitment);
            }
            match witness_data.get(&note_commitment) {
                None => Err(Error::MissingProof { commitment: note_commitment }),
                Some(auth_path) => Ok(
                    Some(
                        WorkUnit {
                            key,
                            input: UnitInput::Spend {
                                plan: *planned,
                                fvk: *fvk,
                                auth_sig: auth_data.spend_auths[index],
                                auth_path,
                            },
                        },
                    ),
                ),
            }
        },
        ActionPlan::Output(planned) => Ok(
            Some(
                WorkUnit {
                    key,
                    input: UnitInput::Output { plan: *planned, ovk: *ovk, memo_key: *memo_key },
                },
            ),
        ),
        ActionPlan::Swap(planned) => Ok(
            Some(WorkUnit { key, input: UnitInput::Swap { plan: *planned, fvk: *fvk } }),
        ),
        ActionPlan::SwapClaim(planned) => {
            let swap_commitment = planned.swap_plaintext.swap_commitment();
            proof {
                lemma_bytes32(swap_commitment);
            }
            match witness_data.get(&swap_commitment) {
                None => Err(Error::MissingProof { commitment: swap_commitment }),
                Some(auth_path) => Ok(
                    Some(
                        WorkUnit {
                            key,
                            input: UnitInput::SwapClaim { plan: *planned, fvk: *fvk, auth_path },
                        },
                    ),
                ),
            }
        },
        ActionPlan::DelegatorVote(planned) => {
            let note_commitment = planned.staked_note.commit();
            proof {
                lemma_bytes32(note_commitment);
            }
            match witness_data.get(&note_commitment) {
                None => Err(Error::MissingProof { commitment: note_commitment }),
                Some(auth_path) => Ok(
                    Some(
                        WorkUnit {
                            key,
                            input: UnitInput::DelegatorVote {
                                plan: *planned,
                                fvk: *fvk,
                                auth_sig: auth_data.delegator_vote_auths[index],
                                auth_path,
                            },
                        },
                    ),
                ),
            }
        },
        _ => Ok(None),
    }
}

/// A category whose actions are not made by units needs no inclusion proofs.
pub proof fn lemma_cheap_needs_no_proof(plans: Seq<ActionPlan>, category: Category, proofs: Seq<Proof>)
    requires
        !category.spec_is_costly(),
    ensures
        first_missing_in(of_category(plans, category), proofs) is None,
{
    crate::order::lemma_of_category_members(plans, category);
    let block = of_category(plans, category);
    assert forall|i: int| 0 <= i < block.len() implies spec_missing(#[trigger] block[i], proofs)
        is None by {
        assert(block[i].spec_category() == category);
    }
    crate::laws::lemma_no_missing(block, proofs);
}

/// Hands out the costly actions of `plan` as units of work, in canonical
/// order.
///
/// Fails as the sequential builder fails, and on the same inputs: with
/// `InputMismatch` where a number of signatures is not the number of actions
/// to be signed, and with `MissingProof` where the witness data hold no proof
/// for a commitment that an action needs.
pub fn scatter(
    plan: &TransactionPlan,
    fvk: &FullViewingKey,
    auth_data: &AuthorizationData,
    witness_data: &WitnessData,
) -> (r: Result<Vec<WorkUnit>, Error>)
    ensures
        match spec_failure(*plan, *auth_data, *witness_data) {
            Some(e) => r == Err::<Vec<WorkUnit>, Error>(e),
            None => r is Ok && r.unwrap()@ == units_upto(
                plan.actions@,
                CATEGORY_COUNT as nat,
                spec_context(*plan, *fvk, *auth_data, *witness_data),
            ),
        },
{
    let spend_count = count_category(&plan.actions, Category::Spend);
    if auth_data.spend_auths.len() != spend_count {
        return Err(
            Error::InputMismatch {
                category: Category::Spend,
                expected: spend_count,
                found: auth_data.spend_auths.len(),
            },
        );
    }
    let vote_count = count_category(&plan.actions, Category::DelegatorVote);
    if auth_data.delegator_vote_auths.len() != vote_count {
        return Err(
            Error::InputMismatch {
                category: Category::DelegatorVote,
                expected: vote_count,
                found: auth_data.delegator_vote_auths.len(),
            },
        );
    }
    let memo_key = payload_key(&plan.memo_plan);
    let ovk = fvk.outgoing();
    let ghost ctx = spec_context(*plan, *fvk, *auth_data, *witness_data);
    let ghost proofs = witness_data.state_commitment_proofs@;
    let ghost plans = plan.actions@;
    let n = plan.actions.len();
    let mut units: Vec<WorkUnit> = Vec::new();
    let mut rank: u8 = 0;
    while rank < CATEGORY_COUNT
        invariant
            rank <= CATEGORY_COUNT,
            n == plans.len(),
            plans == plan.actions@,
            auth_data.spend_auths@.len() == of_category(plans, Category::Spend).len(),
            auth_data.delegator_vote_auths@.len() == of_category(
                plans,
                Category::DelegatorVote,
            ).len(),
            ovk == fvk.spec_outgoing(),
            memo_key == spec_memo_key(plan.memo_plan),
            ctx == spec_context(*plan, *fvk, *auth_data, *witness_data),
            proofs == witness_data.state_commitment_proofs@,
            units@ == units_upto(plans, rank as nat, ctx),
            first_missing_upto(plans, rank as nat, proofs) is None,
        decreases CATEGORY_COUNT - rank,
    {
        let category = Category::from_rank(rank);
        if category.is_costly() {
            let ghost base = units@;
            let mut j: usize = 0;
            let mut k: usize = 0;
            assert(units@ =~= base + units_in(of_category(plans.take(0), category), category, ctx));
            while j < n
                invariant
                    j <= n,
                    k <= j,
                    n == plans.len(),
                    plans == plan.actions@,
                    category.spec_is_costly(),
                    rank < CATEGORY_COUNT,
                    category == Category::spec_from_rank(rank),
                    first_missing_upto(plans, rank as nat, proofs) is None,
                    k == of_category(plans.take(j as int), category).len(),
                    auth_data.spend_auths@.len() == of_category(plans, Category::Spend).len(),
                    auth_data.delegator_vote_auths@.len() == of_category(
                        plans,
                        Category::DelegatorVote,
                    ).len(),
                    ovk == fvk.spec_outgoing(),
                    memo_key == spec_memo_key(plan.memo_plan),
                    ctx == spec_context(*plan, *fvk, *auth_data, *witness_data),
                    proofs == witness_data.state_commitment_proofs@,
                    units@ == base + units_in(
                        of_category(plans.take(j as int), category),
                        category,
                        ctx,
                    ),
                    first_missing_in(of_category(plans.take(j as int), category), proofs) is None,
                decreases n - j,
            {
                let planned = &plan.actions[j];
                let ghost block = of_category(plans.take(j as int), category);
                let ghost next = of_category(plans.take(j as int + 1), category);
                proof {
                    lemma_of_category_step(plans, j as int, category);
                    lemma_of_category_prefix(plans, j as int + 1, category);
                }
                if planned.category() == category {
                    assert(next.drop_last() =~= block);
                    assert(next.last() == *planned);
                    match make_unit(planned, k, fvk, &ovk, &memo_key, auth_data, witness_data) {
                        Err(e) => {
                            proof {
                                lemma_first_missing_prefix(
                                    of_category(plans, category),
                                    next.len() as int,
                                    proofs,
                                );
                                lemma_first_missing_stays(
                                    plans,
                                    (rank + 1) as nat,
                                    CATEGORY_COUNT as nat,
                                    proofs,
                                );
                            }
                            return Err(e);
                        },
                        Ok(None) => {},
                        Ok(Some(unit)) => {
                            units.push(unit);
                            k += 1;
                            assert(units@ =~= base + units_in(next, category, ctx));
                        },
                    }
                }
                j += 1;
            }
            assert(plans.take(n as int) =~= plans);
        } else {
            proof {
                lemma_cheap_needs_no_proof(plans, category, proofs);
                assert(units@ =~= units@ + Seq::<WorkUnit>::empty());
            }
        }
        rank += 1;
    }
    Ok(units)
}

/// The first result among `results` that was reported under `key`.
pub open spec fn find_result(results: Seq<UnitResult>, key: UnitKey) -> Option<UnitResult>
    decreases results.len(),
{
    if results.len() == 0 {
        None
    } else if results[0].key == key {
        Some(results[0])
    } else {
        find_result(results.drop_first(), key)
    }
}

/// The action that was delivered for the plan at place `index` of `category`:
/// the action of the first result under that key, where that result holds an
/// action and the action is of that category.
pub open spec fn delivered(results: Seq<UnitResult>, category: Category, index: int) -> Option<
    Action,
> {
    match find_result(results, UnitKey { category, index: index as usize }) {
        Some(result) => match result.outcome {
            Some(output) => if output.spec_category() == category {
                Some(output.spec_action())
            } else {
                None
            },
            None => None,
        },
        None => None,
    }
}

/// Whether `action` is the action made from `plan` without a unit of work:
/// an undelegate claim carries its plan, and an action that shows its value in
/// public is its plan.
pub open spec fn cheap_built(action: Action, plan: ActionPlan) -> bool {
    match (plan, action) {
        (ActionPlan::UndelegateClaim(planned), Action::UndelegateClaim(made)) => made.plan
            == planned,
        (ActionPlan::Delegate(planned), Action::Delegate(made)) => made.payload@ == planned.payload@,
        (ActionPlan::Undelegate(planned), Action::Undelegate(made)) => made.payload@ == planned.payload@,
        (ActionPlan::ProposalSubmit(planned), Action::ProposalSubmit(made)) => made.payload@ == planned.payload@,
        (ActionPlan::ProposalWithdraw(planned), Action::ProposalWithdraw(made)) => made.payload@ == planned.payload@,
        (ActionPlan::ValidatorVote(planned), Action::ValidatorVote(made)) => made.payload@ == planned.payload@,
        (ActionPlan::ProposalDepositClaim(planned), Action::ProposalDepositClaim(made)) => made.payload@ == planned.payload@,
        (ActionPlan::ValidatorDefinition(planned), Action::ValidatorDefinition(made)) => made.payload@ == planned.payload@,
        (ActionPlan::IbcAction(planned), Action::IbcAction(made)) => made.payload@ == planned.payload@,
        (ActionPlan::DaoSpend(planned), Action::DaoSpend(made)) => made.payload@ == planned.payload@,
        (ActionPlan::DaoOutput(planned), Action::DaoOutput(made)) => made.payload@ == planned.payload@,
        (ActionPlan::DaoDeposit(planned), Action::DaoDeposit(made)) => made.payload@ == planned.payload@,
        _ => false,
    }
}

/// Whether `action` stands rightly for `plan`, the plan at place `index` of
/// `category`: it is what was delivered under that key where the category is
/// made by units, and it is made from the plan on the spot otherwise.
pub open spec fn placed(
    action: Action,
    plan: ActionPlan,
    category: Category,
    index: int,
    results: Seq<UnitResult>,
) -> bool {
    if category.spec_is_costly() {
        delivered(results, category, index) == Some(action)
    } else {
        cheap_built(action, plan)
    }
}

/// Whether `actions` stand rightly for the plans in `block`, which are the
/// plans of `category`, one for one and in order.
pub open spec fn gathered_block(
    actions: Seq<Action>,
    block: Seq<ActionPlan>,
    category: Category,
    results: Seq<UnitResult>,
) -> bool {
    &&& actions.len() == block.len()
    &&& forall|k: int|
        0 <= k < block.len() ==> #[trigger] placed(actions[k], block[k], category, k, results)
}

/// Whether `actions` stand rightly for those of `plans` whose category is
/// among the first `ranks` categories: block after block in canonical order,
/// and within a block in the order of the plan.
pub open spec fn gathered_upto(
    actions: Seq<Action>,
    plans: Seq<ActionPlan>,
    ranks: nat,
    results: Seq<UnitResult>,
) -> bool
    decreases ranks,
{
    if ranks == 0 {
        actions.len() == 0
    } else {
        let category = Category::spec_from_rank((ranks - 1) as u8);
        let block = of_category(plans, category);
        let split = actions.len() - block.len();
        &&& split >= 0
        &&& gathered_upto(actions.take(split), plans, (ranks - 1) as nat, results)
        &&& gathered_block(actions.skip(split), block, category, results)
    }
}

/// The first of the first `len` places of `category` for which nothing was
/// delivered.
pub open spec fn first_undelivered_in(len: nat, category: Category, results: Seq<UnitResult>) -> Option<
    UnitKey,
>
    decreases len,
{
    if len == 0 {
        None
    } else {
        match first_undelivered_in((len - 1) as nat, category, results) {
            Some(key) => Some(key),
            None => if delivered(results, category, len - 1) is None {
                Some(UnitKey { category, index: (len - 1) as usize })
            } else {
                None
            },
        }
    }
}

/// The first plan of `category` for which nothing was delivered, where the
/// actions of the category are made by units.
pub open spec fn undelivered_of(
    plans: Seq<ActionPlan>,
    category: Category,
    results: Seq<UnitResult>,
) -> Option<UnitKey> {
    if category.spec_is_costly() {
        first_undelivered_in(of_category(plans, category).len(), category, results)
    } else {
        None
    }
}

/// The first plan, in canonical order, among those of `plans` whose category
/// is among the first `ranks` categories, for which nothing was delivered.
pub open spec fn first_undelivered_upto(
    plans: Seq<ActionPlan>,
    ranks: nat,
    results: Seq<UnitResult>,
) -> Option<UnitKey>
    decreases ranks,
{
    if ranks == 0 {
        None
    } else {
        match first_undelivered_upto(plans, (ranks - 1) as nat, results) {
            Some(key) => Some(key),
            None => undelivered_of(plans, Category::spec_from_rank((ranks - 1) as u8), results),
        }
    }
}

/// Once a place is found empty, later places do not change which one is
/// empty first.
pub proof fn lemma_first_undelivered_stays(
    len: nat,
    more: nat,
    category: Category,
    results: Seq<UnitResult>,
)
    requires
        len <= more,
        first_undelivered_in(len, category, results) is Some,
    ensures
        first_undelivered_in(more, category, results) == first_undelivered_in(
            len,
            category,
            results,
        ),
    decreases more - len,
{
    if len < more {
        lemma_first_undelivered_stays(len, (more - 1) as nat, category, results);
    }
}

/// Once a place is found empty in one category, later categories do not
/// change which one is empty first.
pub proof fn lemma_first_undelivered_upto_stays(
    plans: Seq<ActionPlan>,
    ranks: nat,
    more: nat,
    results: Seq<UnitResult>,
)
    requires
        ranks <= more,
        first_undelivered_upto(plans, ranks, results) is Some,
    ensures
        first_undelivered_upto(plans, more, results) == first_undelivered_upto(
            plans,
            ranks,
            results,
        ),
    decreases more - ranks,
{
    if ranks < more {
        lemma_first_undelivered_upto_stays(plans, ranks, (more - 1) as nat, results);
    }
}

/// Looks up the first result that was reported under `key`.
pub fn lookup(results: &Vec<UnitResult>, key: UnitKey) -> (found: Option<UnitResult>)
    ensures
        found == find_result(results@, key),
{
    let n = results.len();
    let mut i: usize = 0;
    assert(results@.skip(0) =~= results@);
    while i < n
        invariant
            i <= n,
            n == results@.len(),
            find_result(results@, key) == find_result(results@.skip(i as int), key),
        decreases n - i,
    {
        let result = results[i];
        if result.key.category == key.category && result.key.index == key.index {
            return Some(result);
        }
        assert(results@.skip(i as int).drop_first() =~= results@.skip(i as int + 1));
        i += 1;
    }
    None
}

/// Makes the action of `plan` on the spot, where it is not made by a unit of
/// work.
pub fn make_cheap_action(plan: &ActionPlan) -> (made: Option<Action>)
    ensures
        plan.spec_category().spec_is_costly() <==> made is None,
        made is Some ==> cheap_built(made.unwrap(), *plan),
{
    match plan {
        ActionPlan::UndelegateClaim(planned) => Some(
            Action::UndelegateClaim(planned.undelegate_claim()),
        ),
        ActionPlan::Delegate(planned) => Some(Action::Delegate(planned.duplicate())),
        ActionPlan::Undelegate(planned) => Some(Action::Undelegate(planned.duplicate())),
        ActionPlan::ProposalSubmit(planned) => Some(Action::ProposalSubmit(planned.duplicate())),
        ActionPlan::ProposalWithdraw(planned) => Some(Action::ProposalWithdraw(planned.duplicate())),
        ActionPlan::ValidatorVote(planned) => Some(Action::ValidatorVote(planned.duplicate())),
        ActionPlan::ProposalDepositClaim(planned) => Some(Action::ProposalDepositClaim(planned.duplicate())),
        ActionPlan::ValidatorDefinition(planned) => Some(Action::ValidatorDefinition(planned.duplicate())),
        ActionPlan::IbcAction(planned) => Some(Action::IbcAction(planned.duplicate())),
        ActionPlan::DaoSpend(planned) => Some(Action::DaoSpend(planned.duplicate())),
        ActionPlan::DaoOutput(planned) => Some(Action::DaoOutput(planned.duplicate())),
        ActionPlan::DaoDeposit(planned) => Some(Action::DaoDeposit(planned.duplicate())),
        _ => None,
    }
}

/// Gathers the results of the units of work into the actions of the
/// transaction that `plan` describes, in canonical order.
///
/// The results may come in any order: each is put where its key says. The
/// actions that are not made by units are made on the spot and put between
/// them. Fails with `ConcurrencyFailure` where a unit has delivered nothing,
/// or another kind of action than its key says, and names the first such
/// place in canonical order.
pub fn gather(plan: &TransactionPlan, results: &Vec<UnitResult>) -> (r: Result<Vec<Action>, Error>)
    ensures
        match first_undelivered_upto(plan.actions@, CATEGORY_COUNT as nat, results@) {
            Some(key) => r == Err::<Vec<Action>, Error>(
                Error::ConcurrencyFailure { category: key.category, index: key.index },
            ),
            None => r is Ok && gathered_upto(
                r.unwrap()@,
                plan.actions@,
                CATEGORY_COUNT as nat,
                results@,
            ),
        },
{
    let ghost plans = plan.actions@;
    let n = plan.actions.len();
    let mut actions: Vec<Action> = Vec::new();
    let mut rank: u8 = 0;
    while rank < CATEGORY_COUNT
        invariant
            rank <= CATEGORY_COUNT,
            n == plans.len(),
            plans == plan.actions@,
            gathered_upto(actions@, plans, rank as nat, results@),
            first_undelivered_upto(plans, rank as nat, results@) is None,
        decreases CATEGORY_COUNT - rank,
    {
        let category = Category::from_rank(rank);
        let ghost base = actions@;
        let mut j: usize = 0;
        let mut k: usize = 0;
        assert(actions@.take(base.len() as int) =~= base);
        assert(actions@.skip(base.len() as int) =~= Seq::<Action>::empty());
        while j < n
            invariant
                j <= n,
                k <= j,
                n == plans.len(),
                plans == plan.actions@,
                rank < CATEGORY_COUNT,
                category == Category::spec_from_rank(rank),
                first_undelivered_upto(plans, rank as nat, results@) is None,
                k == of_category(plans.take(j as int), category).len(),
                actions@.len() == base.len() + k,
                actions@.take(base.len() as int) == base,
                gathered_block(
                    actions@.skip(base.len() as int),
                    of_category(plans.take(j as int), category),
                    category,
                    results@,
                ),
                category.spec_is_costly() ==> first_undelivered_in(
                    k as nat,
                    category,
                    results@,
                ) is None,
            decreases n - j,
        {
            let planned = &plan.actions[j];
            let ghost block = of_category(plans.take(j as int), category);
            let ghost next = of_category(plans.take(j as int + 1), category);
            proof {
                lemma_of_category_step(plans, j as int, category);
                lemma_of_category_prefix(plans, j as int + 1, category);
            }
            if planned.category() == category {
                let ghost made = actions@.skip(base.len() as int);
                let action = match make_cheap_action(planned) {
                    Some(action) => action,
                    None => {
                        let found = lookup(results, UnitKey { category, index: k });
                        let output = match found {
                            Some(result) => match result.outcome {
                                Some(output) => if output.category() == category {
                                    Some(output)
                                } else {
                                    None
                                },
                                None => None,
                            },
                            None => None,
                        };
                        match output {
                            Some(output) => output.into_action(),
                            None => {
                                proof {
                                    assert(delivered(results@, category, k as int) is None);
                                    lemma_first_undelivered_stays(
                                        (k + 1) as nat,
                                        of_category(plans, category).len(),
                                        category,
                                        results@,
                                    );
                                    lemma_first_undelivered_upto_stays(
                                        plans,
                                        (rank + 1) as nat,
                                        CATEGORY_COUNT as nat,
                                        results@,
                                    );
                                }
                                return Err(Error::ConcurrencyFailure { category, index: k });
                            },
                        }
                    },
                };
                actions.push(action);
                k += 1;
                proof {
                    assert(actions@.skip(base.len() as int) =~= made.push(action));
                    assert(actions@.take(base.len() as int) =~= base);
                    assert(next =~= block.push(*planned));
                    assert forall|i: int| 0 <= i < next.len() implies #[trigger] placed(
                        actions@.skip(base.len() as int)[i],
                        next[i],
                        category,
                        i,
                        results@,
                    ) by {
                        if i < block.len() {
                            assert(placed(made[i], block[i], category, i, results@));
                        }
                    }
                }
            }
            j += 1;
        }
        assert(plans.take(n as int) =~= plans);
        assert(actions@.len() - of_category(plans, category).len() == base.len());
        rank += 1;
    }
    Ok(actions)
}

impl TransactionPlan {
    /// Builds the transaction this plan describes, with the costly actions
    /// handed out as units of work and gathered by their keys.
    ///
    /// Here the units run one after the other. A caller that has tasks or
    /// threads runs them side by side with [`scatter`], [`WorkUnit::run`] and
    /// [`gather`]; the transaction is the same. It is also the one that
    /// [`TransactionPlan::build`] returns for the same arguments, and the
    /// build fails on the same inputs with the same error.
    pub fn build_concurrent(
        self,
        seed: &[u8; 32],
        fvk: &FullViewingKey,
        auth_data: AuthorizationData,
        witness_data: WitnessData,
    ) -> (r: Result<Transaction, Error>)
        ensures
            match spec_failure(self, auth_data, witness_data) {
                Some(e) => r == Err::<Transaction, Error>(e),
                None => r is Ok && spec_built(
                    r.unwrap(),
                    self,
                    seed@,
                    *fvk,
                    auth_data,
                    witness_data,
                ),
            },
    {
        let ghost ctx = spec_context(self, *fvk, auth_data, witness_data);
        let ghost plans = self.actions@;
        // No plan holds more actions than can be counted.
        let planned = self.actions.len();
        // Start building the costly actions.
        let units = match scatter(&self, fvk, &auth_data, &witness_data) {
            Ok(units) => units,
            Err(e) => {
                return Err(e);
            },
        };
        let count = units.len();
        let mut results: Vec<UnitResult> = Vec::with_capacity(planned);
        let mut i: usize = 0;
        while i < count
            invariant
                i <= count,
                count == units@.len(),
                results@.len() == i,
                forall|m: int| 0 <= m < i ==> results@[m] == completed(units@)[m],
            decreases count - i,
        {
            results.push(units[i].complete());
            i += 1;
        }
        assert(results@ =~= completed(units@));
        proof {
            assert(well_supplied(plans, ctx));
            lemma_all_delivered(plans, CATEGORY_COUNT as nat, ctx);
        }
        // Collect the actions in the order in which a transaction lists them.
        let actions = match gather(&self, &results) {
            Ok(actions) => actions,
            Err(e) => {
                return Err(e);
            },
        };
        proof {
            lemma_gathered_is_built(actions@, plans, CATEGORY_COUNT as nat, ctx);
            lemma_built_follows_canonical(actions@, plans, CATEGORY_COUNT as nat, ctx);
            lemma_blinding_sum_canonical(plans, CATEGORY_COUNT as nat);
            lemma_action_blinding_sum(actions@, canonical(plans), zero_scalar());
        }
        let transaction_body = TransactionBody {
            actions,
            expiry_height: self.expiry_height,
            valid_after: self.valid_after,
            valid_before: self.valid_before,
            chain_id: self.chain_id,
            fee: self.fee,
            fmd_clues: make_clues(&self.clue_plans),
            memo: encrypt_memo(&self.memo_plan),
        };
        let blinding_sum = transaction_body.blinding_sum();
        Ok(sign(transaction_body, &blinding_sum, seed, witness_data.anchor))
    }
}

} // verus!
