//! Making actions out of plans.

use vstd::prelude::*;
use crate::action::{Action, DelegatorVote, Output, Spend, Swap, SwapClaim, UndelegateClaim};
use crate::bytes::lemma_bytes32;
use crate::error::Error;
use crate::keys::{FullViewingKey, OutgoingViewingKey};
use crate::plan::ActionPlan;
use crate::witness::{find_proof, AuthorizationData, Proof, WitnessData};

verus! {

/// What actions are made with, besides their plans.
pub struct Context {
    /// The viewing key of the party that builds.
    pub fvk: FullViewingKey,
    /// The key under which the party that builds can read its outputs again.
    pub ovk: OutgoingViewingKey,
    /// The key under which the payloads of outputs are encrypted.
    pub memo_key: [u8; 32],
    /// The signatures that authorize the spends, in the order of the spends.
    pub spend_auths: Seq<[u8; 64]>,
    /// The signatures that authorize the delegator votes, in their order.
    pub delegator_vote_auths: Seq<[u8; 64]>,
    /// The inclusion proofs at hand.
    pub proofs: Seq<Proof>,
}

/// The commitment for which `plan` needs an inclusion proof that is not among
/// `proofs`, if there is one.
pub open spec fn spec_missing(plan: ActionPlan, proofs: Seq<Proof>) -> Option<[u8; 32]> {
    match plan.spec_commitment() {
        Some(commitment) => if find_proof(proofs, commitment) is None {
            Some(commitment)
        } else {
            None
        },
        None => None,
    }
}

/// Whether `action` is the action made from `plan`, the plan being number
/// `index` among the plans of its category.
///
/// A spend or a delegator vote carries its plan, the keys of the builder, the
/// signature at `index` and the proof for its note. A swap claim carries its
/// plan, the nullifier key, the proof for its swap and its share of the batch.
/// An output carries its plan and the keys under which it is encrypted, a swap
/// its plan and the outgoing viewing key. Every other action is its plan.
pub open spec fn built_from(action: Action, plan: ActionPlan, index: int, ctx: Context) -> bool {
    match (plan, action) {
        (ActionPlan::Spend(planned), Action::Spend(made)) => {
            &&& made.plan == planned
            &&& made.ak == ctx.fvk.ak
            &&& made.nk == ctx.fvk.nk
            &&& 0 <= index < ctx.spend_auths.len()
            &&& made.auth_sig == ctx.spend_auths[index]
            &&& Some(made.auth_path) == find_proof(ctx.proofs, plan.spec_commitment().unwrap())
        },
        (ActionPlan::Output(planned), Action::Output(made)) => {
            &&& made.plan == planned
            &&& made.ovk == ctx.ovk
            &&& made.memo_key == ctx.memo_key
        },
        (ActionPlan::Swap(planned), Action::Swap(made)) => {
            &&& made.plan == planned
            &&& made.ovk == ctx.fvk.spec_outgoing()
        },
        (ActionPlan::SwapClaim(planned), Action::SwapClaim(made)) => {
            &&& made.plan == planned
            &&& made.nk == ctx.fvk.nk
            &&& Some(made.auth_path) == find_proof(ctx.proofs, plan.spec_commitment().unwrap())
            &&& (made.lambda_1_i, made.lambda_2_i) == planned.spec_share()
        },
        (ActionPlan::UndelegateClaim(planned), Action::UndelegateClaim(made)) => made.plan
            == planned,
        (ActionPlan::DelegatorVote(planned), Action::DelegatorVote(made)) => {
            &&& made.plan == planned
            &&& made.ak == ctx.fvk.ak
            &&& made.nk == ctx.fvk.nk
            &&& 0 <= index < ctx.delegator_vote_auths.len()
            &&& made.auth_sig == ctx.delegator_vote_auths[index]
            &&& Some(made.auth_path) == find_proof(ctx.proofs, plan.spec_commitment().unwrap())
        },
        (ActionPlan::Delegate(planned), Action::Delegate(made)) => made.payload@ == planned.payload@,
        (ActionPlan::Undelegate(planned), Action::Undelegate(made)) => made.payload@ == planned.payload@,
        (ActionPlan::ProposalSubmit(planned), Action::ProposalSubmit(made)) => made.payload@ == planned.payload@,
        (ActionPlan::ProposalWithdraw(planned), Action::ProposalWithdraw(made)) => made.payload@ == planned.payload@,
        (ActionPlan::ValidatorVote(planned), Action::ValidatorVote(made)) => made.payload@ == planned.payload@,
        (ActionPlan::ProposalDepositClaim(planned), Action::ProposalDepositClaim(made)) => made.payload@ == planned.payload@,
        (ActionPlan::ValidatorDefinition(planned), Action::ValidatorDefinition(made)) => made.payload@ == planned.payload@,
        (ActionPlan::IbcAction(planned), Action::IbcAction(made)) => made.payload@ == planned.payload@,
        (ActionPlan::DaoSpend(planned), Action::DaoSpend(made)) => made.payload@ == planned.payload@,
        (ActionPlan::DaoOutput(planned), Action::DaoOutput(made)) => made.payload@ == planned.payload@,
        (ActionPlan::DaoDeposit(planned), Action::DaoDeposit(made)) => made.payload@ == planned.payload@,
        _ => false,
    }
}

/// An action hashes as the plan it was made from, and contributes the same
/// blinding factor.
pub proof fn lemma_built_from_keeps_plan(action: Action, plan: ActionPlan, index: int, ctx: Context)
    requires
        built_from(action, plan, index, ctx),
    ensures
        action.spec_category() == plan.spec_category(),
        action.spec_encode() == plan.spec_encode(),
        action.spec_blinding() == plan.spec_blinding(),
{
}

/// Makes the action that `plan` describes, the plan being number `index`
/// among the plans of its category.
///
/// Fails where the plan needs an inclusion proof that the witness data do not
/// hold, and names the commitment.
pub fn make_action(
    plan: &ActionPlan,
    index: usize,
    fvk: &FullViewingKey,
    ovk: &OutgoingViewingKey,
    memo_key: &[u8; 32],
    auth_data: &AuthorizationData,
    witness_data: &WitnessData,
) -> (r: Result<Action, Error>)
    requires
        plan is Spend ==> index < auth_data.spend_auths@.len(),
        plan is DelegatorVote ==> index < auth_data.delegator_vote_auths@.len(),
    ensures
        match spec_missing(*plan, witness_data.state_commitment_proofs@) {
            Some(commitment) => r == Err::<Action, Error>(Error::MissingProof { commitment }),
            None => r is Ok && built_from(
                r.unwrap(),
                *plan,
                index as int,
                Context {
                    fvk: *fvk,
                    ovk: *ovk,
                    memo_key: *memo_key,
                    spend_auths: auth_data.spend_auths@,
                    delegator_vote_auths: auth_data.delegator_vote_auths@,
                    proofs: witness_data.state_commitment_proofs@,
                },
            ),
        },
{
    match plan {
        ActionPlan::Spend(planned) => {
            let note_commitment = planned.note.commit();
            proof {
                lemma_bytes32(note_commitment);
            }
            match witness_data.get(&note_commitment) {
                None => Err(Error::MissingProof { commitment: note_commitment }),
                Some(auth_path) => Ok(
                    Action::Spend(planned.spend(fvk, auth_data.spend_auths[index], auth_path)),
                ),
            }
        },
        ActionPlan::Output(planned) => Ok(Action::Output(planned.output(ovk, memo_key))),
        ActionPlan::Swap(planned) => Ok(Action::Swap(planned.swap(fvk))),
        ActionPlan::SwapClaim(planned) => {
            let swap_commitment = planned.swap_plaintext.swap_commitment();
            proof {
                lemma_bytes32(swap_commitment);
            }
            match witness_data.get(&swap_commitment) {
                None => Err(Error::MissingProof { commitment: swap_commitment }),
                Some(auth_path) => Ok(Action::SwapClaim(planned.swap_claim(fvk, &auth_path))),
            }
        },
        ActionPlan::UndelegateClaim(planned) => Ok(
            Action::UndelegateClaim(planned.undelegate_claim()),
        ),
        ActionPlan::DelegatorVote(planned) => {
            let note_commitment = planned.staked_note.commit();
            proof {
                lemma_bytes32(note_commitment);
            }
            match witness_data.get(&note_commitment) {
                None => Err(Error::MissingProof { commitment: note_commitment }),
                Some(auth_path) => Ok(
                    Action::DelegatorVote(
                        planned.delegator_vote(
                            fvk,
                            auth_data.delegator_vote_auths[index],
                            auth_path,
                        ),
                    ),
                ),
            }
        },
        ActionPlan::Delegate(planned) => Ok(Action::Delegate(planned.duplicate())),
        ActionPlan::Undelegate(planned) => Ok(Action::Undelegate(planned.duplicate())),
        ActionPlan::ProposalSubmit(planned) => Ok(Action::ProposalSubmit(planned.duplicate())),
        ActionPlan::ProposalWithdraw(planned) => Ok(Action::ProposalWithdraw(planned.duplicate())),
        ActionPlan::ValidatorVote(planned) => Ok(Action::ValidatorVote(planned.duplicate())),
        ActionPlan::ProposalDepositClaim(planned) => Ok(Action::ProposalDepositClaim(planned.duplicate())),
        ActionPlan::ValidatorDefinition(planned) => Ok(Action::ValidatorDefinition(planned.duplicate())),
        ActionPlan::IbcAction(planned) => Ok(Action::IbcAction(planned.duplicate())),
        ActionPlan::DaoSpend(planned) => Ok(Action::DaoSpend(planned.duplicate())),
        ActionPlan::DaoOutput(planned) => Ok(Action::DaoOutput(planned.duplicate())),
        ActionPlan::DaoDeposit(planned) => Ok(Action::DaoDeposit(planned.duplicate())),
    }
}

} // verus!
