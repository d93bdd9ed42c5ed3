//! Actions: what a transaction is made of.
//!
//! An action pairs the plan it was made from with what the builder has
//! attached to it: the keys it is made under, the signature that authorizes
//! it, the proof that its note is in the accumulator.

use vstd::prelude::*;
use crate::encoding::put_u8;
use crate::error::Category;
use crate::keys::{FullViewingKey, NullifierKey, OutgoingViewingKey};
use crate::plan::{
    DelegatorVotePlan, OutputPlan, PublicAction, SpendPlan, SwapClaimPlan, SwapPlan,
    UndelegateClaimPlan,
};
use crate::witness::Proof;

verus! {

/// A spend: the plan, the keys of the spender, the signature that authorizes
/// the spend and the proof that the note is in the accumulator.
#[derive(Clone, Copy, Debug, PartialEq, Eq)]
pub struct Spend {
    pub plan: SpendPlan,
    pub ak: [u8; 32],
    pub nk: NullifierKey,
    pub auth_sig: [u8; 64],
    pub auth_path: Proof,
}

/// An output: the plan, and the keys under which its payload is encrypted.
#[derive(Clone, Copy, Debug, PartialEq, Eq)]
pub struct Output {
    pub plan: OutputPlan,
    pub ovk: OutgoingViewingKey,
    pub memo_key: [u8; 32],
}

/// A swap: the plan, and the key under which its payload is encrypted.
#[derive(Clone, Copy, Debug, PartialEq, Eq)]
pub struct Swap {
    pub plan: SwapPlan,
    pub ovk: OutgoingViewingKey,
}

/// A swap claim: the plan, the nullifier key of the claimant, the proof that
/// the swap is in the accumulator, and the claimant's share of the batch.
#[derive(Clone, Copy, Debug, PartialEq, Eq)]
pub struct SwapClaim {
    pub plan: SwapClaimPlan,
    pub nk: NullifierKey,
    pub auth_path: Proof,
    pub lambda_1_i: u64,
    pub lambda_2_i: u64,
}

/// An undelegate claim.
#[derive(Clone, Copy, Debug, PartialEq, Eq)]
pub struct UndelegateClaim {
    pub plan: UndelegateClaimPlan,
}

/// A delegator vote: the plan, the keys of the voter, the signature that
/// authorizes the vote and the proof that the staked note is in the
/// accumulator.
#[derive(Clone, Copy, Debug, PartialEq, Eq)]
pub struct DelegatorVote {
    pub plan: DelegatorVotePlan,
    pub ak: [u8; 32],
    pub nk: NullifierKey,
    pub auth_sig: [u8; 64],
    pub auth_path: Proof,
}

/// One action of a transaction.
#[derive(Clone, Debug, PartialEq, Eq)]
pub enum Action {
    /// Spends a note.
    Spend(Spend),
    /// Creates a note.
    Output(Output),
    /// Puts value into a batch swap.
    Swap(Swap),
    /// Claims the outcome of a swap.
    SwapClaim(SwapClaim),
    /// Delegates stake to a validator.
    Delegate(PublicAction),
    /// Withdraws stake from a validator.
    Undelegate(PublicAction),
    /// Claims stake whose unbonding has ended.
    UndelegateClaim(UndelegateClaim),
    /// Submits a governance proposal.
    ProposalSubmit(PublicAction),
    /// Withdraws a governance proposal.
    ProposalWithdraw(PublicAction),
    /// A validator's vote on a proposal.
    ValidatorVote(PublicAction),
    /// A delegator's vote on a proposal.
    DelegatorVote(DelegatorVote),
    /// Claims the deposit of a proposal.
    ProposalDepositClaim(PublicAction),
    /// Defines or updates a validator.
    ValidatorDefinition(PublicAction),
    /// An action of the inter-chain protocol.
    IbcAction(PublicAction),
    /// Spends from the community treasury.
    DaoSpend(PublicAction),
    /// Pays out of the community treasury.
    DaoOutput(PublicAction),
    /// Deposits into the community treasury.
    DaoDeposit(PublicAction),
}

impl SpendPlan {
    /// Makes the spend that this plan describes.
    pub fn spend(&self, fvk: &FullViewingKey, auth_sig: [u8; 64], auth_path: Proof) -> (spend:
        Spend)
        ensures
            spend == (Spend { plan: *self, ak: fvk.ak, nk: fvk.nk, auth_sig, auth_path }),
    {
        Spend { plan: *self, ak: fvk.ak, nk: fvk.nk, auth_sig, auth_path }
    }
}

impl OutputPlan {
    /// Makes the output that this plan describes.
    pub fn output(&self, ovk: &OutgoingViewingKey, memo_key: &[u8; 32]) -> (output: Output)
        ensures
            output == (Output { plan: *self, ovk: *ovk, memo_key: *memo_key }),
    {
        Output { plan: *self, ovk: *ovk, memo_key: *memo_key }
    }
}

impl SwapPlan {
    /// Makes the swap that this plan describes.
    pub fn swap(&self, fvk: &FullViewingKey) -> (swap: Swap)
        ensures
            swap == (Swap { plan: *self, ovk: fvk.spec_outgoing() }),
    {
        Swap { plan: *self, ovk: fvk.outgoing() }
    }
}

impl SwapClaimPlan {
    /// The claimant's share of the batch: what the outcome of the batch gives
    /// for the two inputs of the swap.
    pub open spec fn spec_share(self) -> (u64, u64) {
        self.output_data.spec_pro_rata_outputs(
            self.swap_plaintext.delta_1_i,
            self.swap_plaintext.delta_2_i,
        )
    }

    /// Makes the swap claim that this plan describes.
    pub fn swap_claim(&self, fvk: &FullViewingKey, auth_path: &Proof) -> (claim: SwapClaim)
        ensures
            claim == (SwapClaim {
                plan: *self,
                nk: fvk.nk,
                auth_path: *auth_path,
                lambda_1_i: self.spec_share().0,
                lambda_2_i: self.spec_share().1,
            }),
    {
        let (lambda_1_i, lambda_2_i) = self.output_data.pro_rata_outputs(
            (self.swap_plaintext.delta_1_i, self.swap_plaintext.delta_2_i),
        );
        SwapClaim { plan: *self, nk: fvk.nk, auth_path: *auth_path, lambda_1_i, lambda_2_i }
    }
}

impl UndelegateClaimPlan {
    /// Makes the undelegate claim that this plan describes.
    pub fn undelegate_claim(&self) -> (claim: UndelegateClaim)
        ensures
            claim == (UndelegateClaim { plan: *self }),
    {
        UndelegateClaim { plan: *self }
    }
}

impl DelegatorVotePlan {
    /// Makes the delegator vote that this plan describes.
    pub fn delegator_vote(&self, fvk: &FullViewingKey, auth_sig: [u8; 64], auth_path: Proof) -> (vote:
        DelegatorVote)
        ensures
            vote == (DelegatorVote { plan: *self, ak: fvk.ak, nk: fvk.nk, auth_sig, auth_path }),
    {
        DelegatorVote { plan: *self, ak: fvk.ak, nk: fvk.nk, auth_sig, auth_path }
    }
}

impl Action {
    /// The category of this action.
    pub open spec fn spec_category(self) -> Category {
        match self {
            Action::Spend(_) => Category::Spend,
            Action::Output(_) => Category::Output,
            Action::Swap(_) => Category::Swap,
            Action::SwapClaim(_) => Category::SwapClaim,
            Action::Delegate(_) => Category::Delegate,
            Action::Undelegate(_) => Category::Undelegate,
            Action::UndelegateClaim(_) => Category::UndelegateClaim,
            Action::ProposalSubmit(_) => Category::ProposalSubmit,
            Action::ProposalWithdraw(_) => Category::ProposalWithdraw,
            Action::ValidatorVote(_) => Category::ValidatorVote,
            Action::DelegatorVote(_) => Category::DelegatorVote,
            Action::ProposalDepositClaim(_) => Category::ProposalDepositClaim,
            Action::ValidatorDefinition(_) => Category::ValidatorDefinition,
            Action::IbcAction(_) => Category::IbcAction,
            Action::DaoSpend(_) => Category::DaoSpend,
            Action::DaoOutput(_) => Category::DaoOutput,
            Action::DaoDeposit(_) => Category::DaoDeposit,
        }
    }

    /// The category of this action.
    pub fn category(&self) -> (category: Category)
        ensures
            category == self.spec_category(),
    {
        match self {
            Action::Spend(_) => Category::Spend,
            Action::Output(_) => Category::Output,
            Action::Swap(_) => Category::Swap,
            Action::SwapClaim(_) => Category::SwapClaim,
            Action::Delegate(_) => Category::Delegate,
            Action::Undelegate(_) => Category::Undelegate,
            Action::UndelegateClaim(_) => Category::UndelegateClaim,
            Action::ProposalSubmit(_) => Category::ProposalSubmit,
            Action::ProposalWithdraw(_) => Category::ProposalWithdraw,
            Action::ValidatorVote(_) => Category::ValidatorVote,
            Action::DelegatorVote(_) => Category::DelegatorVote,
            Action::ProposalDepositClaim(_) => Category::ProposalDepositClaim,
            Action::ValidatorDefinition(_) => Category::ValidatorDefinition,
            Action::IbcAction(_) => Category::IbcAction,
            Action::DaoSpend(_) => Category::DaoSpend,
            Action::DaoOutput(_) => Category::DaoOutput,
            Action::DaoDeposit(_) => Category::DaoDeposit,
        }
    }

    /// The encoding of this action, which is that of its plan: the rank of its
    /// category, then the encoding of what was planned. Signatures, proofs and
    /// keys are no part of it.
    pub open spec fn spec_encode(self) -> Seq<u8> {
        seq![self.spec_category().spec_rank()] + match self {
            Action::Spend(inner) => inner.plan.spec_encode(),
            Action::Output(inner) => inner.plan.spec_encode(),
            Action::Swap(inner) => inner.plan.spec_encode(),
            Action::SwapClaim(inner) => inner.plan.spec_encode(),
            Action::Delegate(inner) => inner.spec_encode(),
            Action::Undelegate(inner) => inner.spec_encode(),
            Action::UndelegateClaim(inner) => inner.plan.spec_encode(),
            Action::ProposalSubmit(inner) => inner.spec_encode(),
            Action::ProposalWithdraw(inner) => inner.spec_encode(),
            Action::ValidatorVote(inner) => inner.spec_encode(),
            Action::DelegatorVote(inner) => inner.plan.spec_encode(),
            Action::ProposalDepositClaim(inner) => inner.spec_encode(),
            Action::ValidatorDefinition(inner) => inner.spec_encode(),
            Action::IbcAction(inner) => inner.spec_encode(),
            Action::DaoSpend(inner) => inner.spec_encode(),
            Action::DaoOutput(inner) => inner.spec_encode(),
            Action::DaoDeposit(inner) => inner.spec_encode(),
        }
    }

    /// Encodes this action.
    pub fn encode(&self) -> (encoded: Vec<u8>)
        ensures
            encoded@ == self.spec_encode(),
    {
        let mut out: Vec<u8> = Vec::new();
        put_u8(&mut out, self.category().rank());
        match self {
            Action::Spend(inner) => inner.plan.encode_into(&mut out),
            Action::Output(inner) => inner.plan.encode_into(&mut out),
            Action::Swap(inner) => inner.plan.encode_into(&mut out),
            Action::SwapClaim(inner) => inner.plan.encode_into(&mut out),
            Action::Delegate(inner) => inner.encode_into(&mut out),
            Action::Undelegate(inner) => inner.encode_into(&mut out),
            Action::UndelegateClaim(inner) => inner.plan.encode_into(&mut out),
            Action::ProposalSubmit(inner) => inner.encode_into(&mut out),
            Action::ProposalWithdraw(inner) => inner.encode_into(&mut out),
            Action::ValidatorVote(inner) => inner.encode_into(&mut out),
            Action::DelegatorVote(inner) => inner.plan.encode_into(&mut out),
            Action::ProposalDepositClaim(inner) => inner.encode_into(&mut out),
            Action::ValidatorDefinition(inner) => inner.encode_into(&mut out),
            Action::IbcAction(inner) => inner.encode_into(&mut out),
            Action::DaoSpend(inner) => inner.encode_into(&mut out),
            Action::DaoOutput(inner) => inner.encode_into(&mut out),
            Action::DaoDeposit(inner) => inner.encode_into(&mut out),
        }
        assert(out@ =~= self.spec_encode());
        out
    }

    /// Whether this action and `other` are the same in kind and in content.
    pub open spec fn spec_same(self, other: Action) -> bool {
        match (self, other) {
            (Action::Spend(first), Action::Spend(second)) => first == second,
            (Action::Output(first), Action::Output(second)) => first == second,
            (Action::Swap(first), Action::Swap(second)) => first == second,
            (Action::SwapClaim(first), Action::SwapClaim(second)) => first == second,
            (Action::Delegate(first), Action::Delegate(second)) => first.payload@ == second.payload@,
            (Action::Undelegate(first), Action::Undelegate(second)) => first.payload@ == second.payload@,
            (Action::UndelegateClaim(first), Action::UndelegateClaim(second)) => first == second,
            (Action::ProposalSubmit(first), Action::ProposalSubmit(second)) => first.payload@ == second.payload@,
            (Action::ProposalWithdraw(first), Action::ProposalWithdraw(second)) => first.payload@ == second.payload@,
            (Action::ValidatorVote(first), Action::ValidatorVote(second)) => first.payload@ == second.payload@,
            (Action::DelegatorVote(first), Action::DelegatorVote(second)) => first == second,
            (Action::ProposalDepositClaim(first), Action::ProposalDepositClaim(second)) => first.payload@ == second.payload@,
            (Action::ValidatorDefinition(first), Action::ValidatorDefinition(second)) => first.payload@ == second.payload@,
            (Action::IbcAction(first), Action::IbcAction(second)) => first.payload@ == second.payload@,
            (Action::DaoSpend(first), Action::DaoSpend(second)) => first.payload@ == second.payload@,
            (Action::DaoOutput(first), Action::DaoOutput(second)) => first.payload@ == second.payload@,
            (Action::DaoDeposit(first), Action::DaoDeposit(second)) => first.payload@ == second.payload@,
            _ => false,
        }
    }

    /// The blinding factor that this action contributes to the transaction's
    /// binding key, if it contributes one.
    pub open spec fn spec_blinding(self) -> Option<[u8; 32]> {
        match self {
            Action::Spend(spend) => Some(spend.plan.value_blinding),
            Action::Output(output) => Some(output.plan.value_blinding),
            Action::Swap(swap) => Some(swap.plan.fee_blinding),
            Action::UndelegateClaim(claim) => Some(claim.plan.balance_blinding),
            _ => None,
        }
    }

    /// The blinding factor that this action contributes to the transaction's
    /// binding key, if it contributes one.
    pub fn blinding(&self) -> (blinding: Option<[u8; 32]>)
        ensures
            blinding == self.spec_blinding(),
            blinding is Some <==> self.spec_category().spec_is_blinded(),
    {
        match self {
            Action::Spend(spend) => Some(spend.plan.value_blinding),
            Action::Output(output) => Some(output.plan.value_blinding),
            Action::Swap(swap) => Some(swap.plan.fee_blinding),
            Action::UndelegateClaim(claim) => Some(claim.plan.balance_blinding),
            _ => None,
        }
    }
}

} // verus!
