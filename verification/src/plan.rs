//! Plans: what a party wants a transaction to do, before anything is signed
//! or proved.

use vstd::prelude::*;
use crate::bytes::{bytes32, le_bytes, u128_to_bytes32};
use crate::domain::{spec_domain_separator, swap_domain_separator, swap_label};
use crate::encoding::{put_bytes, put_u64, put_u8, u64_bytes};
use crate::error::Category;
use crate::hash::{poseidon_4, poseidon_7, poseidon_hash_4, poseidon_hash_7};
use crate::note::{Address, Note, Value};
use crate::settlement::{BatchSwapOutputData, TradingPair};

verus! {

/// The plan of a spend: the note to spend, where it lies in the accumulator,
/// and the randomness of the spend.
#[derive(Clone, Copy, Debug, PartialEq, Eq)]
pub struct SpendPlan {
    pub note: Note,
    pub position: u64,
    /// Randomizes the key under which the spend is authorized.
    pub randomizer: [u8; 32],
    /// Blinds the commitment to the value that is spent.
    pub value_blinding: [u8; 32],
}

/// The plan of an output: the value to send, where to send it, and the
/// randomness of the output.
#[derive(Clone, Copy, Debug, PartialEq, Eq)]
pub struct OutputPlan {
    pub value: Value,
    pub dest_address: Address,
    /// Blinds the commitment to the new note.
    pub note_blinding: [u8; 32],
    /// Blinds the commitment to the value that is sent.
    pub value_blinding: [u8; 32],
    /// The ephemeral secret under which the note is encrypted.
    pub esk: [u8; 32],
}

/// What a swap says in private: the pair, the two inputs, the fee paid ahead
/// for the claim, and where the outcome is to go.
#[derive(Clone, Copy, Debug, PartialEq, Eq)]
pub struct SwapPlaintext {
    pub trading_pair: TradingPair,
    pub delta_1_i: u64,
    pub delta_2_i: u64,
    pub claim_fee: Value,
    pub claim_address: Address,
    pub rseed: [u8; 32],
}

/// The plan of a swap.
#[derive(Clone, Copy, Debug, PartialEq, Eq)]
pub struct SwapPlan {
    pub swap_plaintext: SwapPlaintext,
    /// Blinds the commitment to the fee that is paid ahead.
    pub fee_blinding: [u8; 32],
}

/// The plan of a swap claim: the swap that is claimed, where it lies in the
/// accumulator, and the outcome of the batch it was part of.
#[derive(Clone, Copy, Debug, PartialEq, Eq)]
pub struct SwapClaimPlan {
    pub swap_plaintext: SwapPlaintext,
    pub position: u64,
    pub output_data: BatchSwapOutputData,
    pub epoch_duration: u64,
}

/// The plan of an undelegate claim.
#[derive(Clone, Copy, Debug, PartialEq, Eq)]
pub struct UndelegateClaimPlan {
    pub validator_identity: [u8; 32],
    pub start_epoch_index: u64,
    pub unbonding_amount: u64,
    /// The penalty that applies, in basis points squared.
    pub penalty: u64,
    /// Blinds the commitment to the balance that is claimed.
    pub balance_blinding: [u8; 32],
}

/// The plan of a delegator vote: the proposal, the vote, the staked note that
/// gives the right to vote, and the randomness of the vote.
#[derive(Clone, Copy, Debug, PartialEq, Eq)]
pub struct DelegatorVotePlan {
    pub proposal: u64,
    pub start_position: u64,
    pub vote: u8,
    pub staked_note: Note,
    pub position: u64,
    pub unbonded_amount: u64,
    /// Randomizes the key under which the vote is authorized.
    pub randomizer: [u8; 32],
}

/// An action that shows its value in public. Nothing of it is blinded or
/// proved, so the plan of such an action is the action itself, in its encoded
/// form.
#[derive(Clone, Debug, PartialEq, Eq)]
pub struct PublicAction {
    pub payload: Vec<u8>,
}

/// The plan of one action.
#[derive(Clone, Debug, PartialEq, Eq)]
pub enum ActionPlan {
    /// Spends a note.
    Spend(SpendPlan),
    /// Creates a note.
    Output(OutputPlan),
    /// Puts value into a batch swap.
    Swap(SwapPlan),
    /// Claims the outcome of a swap.
    SwapClaim(SwapClaimPlan),
    /// Delegates stake to a validator.
    Delegate(PublicAction),
    /// Withdraws stake from a validator.
    Undelegate(PublicAction),
    /// Claims stake whose unbonding has ended.
    UndelegateClaim(UndelegateClaimPlan),
    /// Submits a governance proposal.
    ProposalSubmit(PublicAction),
    /// Withdraws a governance proposal.
    ProposalWithdraw(PublicAction),
    /// A validator's vote on a proposal.
    ValidatorVote(PublicAction),
    /// A delegator's vote on a proposal.
    DelegatorVote(DelegatorVotePlan),
    /// Claims the deposit of a proposal.
    ProposalDepositClaim(PublicAction),
    /// Defines or updates a validator.
    ValidatorDefinition(PublicAction),
    /// An action of the inter-chain protocol.
    IbcAction(PublicAction),
    /// Spends from the community treasury.
    DaoSpend(PublicAction),
    /// Pays out of the community treasury.
    DaoOutput(PublicAction),
    /// Deposits into the community treasury.
    DaoDeposit(PublicAction),
}

impl SpendPlan {
    /// The encoding of this plan.
    pub open spec fn spec_encode(self) -> Seq<u8> {
        self.note.spec_encode() + u64_bytes(self.position) + self.randomizer@
            + self.value_blinding@
    }

    /// Appends the encoding of this plan.
    pub fn encode_into(&self, out: &mut Vec<u8>)
        ensures
            final(out)@ == old(out)@ + self.spec_encode(),
    {
        self.note.encode_into(out);
        put_u64(out, self.position);
        put_bytes(out, self.randomizer.as_slice());
        put_bytes(out, self.value_blinding.as_slice());
        assert(out@ =~= old(out)@ + self.spec_encode());
    }
}

impl OutputPlan {
    /// The encoding of this plan.
    pub open spec fn spec_encode(self) -> Seq<u8> {
        self.value.spec_encode() + self.dest_address.spec_encode() + self.note_blinding@
            + self.value_blinding@ + self.esk@
    }

    /// Appends the encoding of this plan.
    pub fn encode_into(&self, out: &mut Vec<u8>)
        ensures
            final(out)@ == old(out)@ + self.spec_encode(),
    {
        self.value.encode_into(out);
        self.dest_address.encode_into(out);
        put_bytes(out, self.note_blinding.as_slice());
        put_bytes(out, self.value_blinding.as_slice());
        put_bytes(out, self.esk.as_slice());
        assert(out@ =~= old(out)@ + self.spec_encode());
    }

    /// The note that this output creates.
    pub open spec fn spec_output_note(self) -> Note {
        Note {
            value: self.value,
            note_blinding: self.note_blinding,
            address: self.dest_address,
        }
    }

    /// The note that this output creates.
    pub fn output_note(&self) -> (note: Note)
        ensures
            note == self.spec_output_note(),
    {
        Note {
            value: self.value,
            note_blinding: self.note_blinding,
            address: self.dest_address,
        }
    }
}

impl SwapPlaintext {
    /// The encoding of this plaintext.
    pub open spec fn spec_encode(self) -> Seq<u8> {
        self.trading_pair.spec_encode() + u64_bytes(self.delta_1_i) + u64_bytes(self.delta_2_i)
            + self.claim_fee.spec_encode() + self.claim_address.spec_encode() + self.rseed@
    }

    /// Appends the encoding of this plaintext.
    pub fn encode_into(&self, out: &mut Vec<u8>)
        ensures
            final(out)@ == old(out)@ + self.spec_encode(),
    {
        self.trading_pair.encode_into(out);
        put_u64(out, self.delta_1_i);
        put_u64(out, self.delta_2_i);
        self.claim_fee.encode_into(out);
        self.claim_address.encode_into(out);
        put_bytes(out, self.rseed.as_slice());
        assert(out@ =~= old(out)@ + self.spec_encode());
    }

    /// The commitment to this swap: the Poseidon hash, under the domain
    /// separator of swaps, of the seed, the fee, the claim address and the hash
    /// of the pair and the two inputs.
    pub open spec fn spec_swap_commitment(self) -> Seq<u8> {
        let separator = spec_domain_separator(swap_label());
        poseidon_7(
            separator,
            self.rseed@,
            le_bytes(self.claim_fee.amount as nat, 32),
            self.claim_fee.asset_id@,
            self.claim_address.diversified_generator@,
            self.claim_address.transmission_key@,
            self.claim_address.clue_key@,
            poseidon_4(
                separator,
                self.trading_pair.asset_1@,
                self.trading_pair.asset_2@,
                le_bytes(self.delta_1_i as nat, 32),
                le_bytes(self.delta_2_i as nat, 32),
            ),
        )
    }

    /// Computes the commitment to this swap.
    pub fn swap_commitment(&self) -> (cm: [u8; 32])
        ensures
            cm@ == self.spec_swap_commitment(),
    {
        let separator = swap_domain_separator();
        let delta_1 = u128_to_bytes32(self.delta_1_i as u128);
        let delta_2 = u128_to_bytes32(self.delta_2_i as u128);
        let inner = poseidon_hash_4(
            &separator,
            &self.trading_pair.asset_1,
            &self.trading_pair.asset_2,
            &delta_1,
            &delta_2,
        );
        let fee = u128_to_bytes32(self.claim_fee.amount as u128);
        let inputs: [[u8; 32]; 7] = [
            self.rseed,
            fee,
            self.claim_fee.asset_id,
            self.claim_address.diversified_generator,
            self.claim_address.transmission_key,
            self.claim_address.clue_key,
            inner,
        ];
        poseidon_hash_7(&separator, &inputs)
    }
}

impl SwapPlan {
    /// The encoding of this plan.
    pub open spec fn spec_encode(self) -> Seq<u8> {
        self.swap_plaintext.spec_encode() + self.fee_blinding@
    }

    /// Appends the encoding of this plan.
    pub fn encode_into(&self, out: &mut Vec<u8>)
        ensures
            final(out)@ == old(out)@ + self.spec_encode(),
    {
        self.swap_plaintext.encode_into(out);
        put_bytes(out, self.fee_blinding.as_slice());
        assert(out@ =~= old(out)@ + self.spec_encode());
    }
}

impl SwapClaimPlan {
    /// The encoding of this plan.
    pub open spec fn spec_encode(self) -> Seq<u8> {
        self.swap_plaintext.spec_encode() + u64_bytes(self.position)
            + self.output_data.spec_encode() + u64_bytes(self.epoch_duration)
    }

    /// Appends the encoding of this plan.
    pub fn encode_into(&self, out: &mut Vec<u8>)
        ensures
            final(out)@ == old(out)@ + self.spec_encode(),
    {
        self.swap_plaintext.encode_into(out);
        put_u64(out, self.position);
        self.output_data.encode_into(out);
        put_u64(out, self.epoch_duration);
        assert(out@ =~= old(out)@ + self.spec_encode());
    }
}

impl UndelegateClaimPlan {
    /// The encoding of this plan.
    pub open spec fn spec_encode(self) -> Seq<u8> {
        self.validator_identity@ + u64_bytes(self.start_epoch_index) + u64_bytes(
            self.unbonding_amount,
        ) + u64_bytes(self.penalty) + self.balance_blinding@
    }

    /// Appends the encoding of this plan.
    pub fn encode_into(&self, out: &mut Vec<u8>)
        ensures
            final(out)@ == old(out)@ + self.spec_encode(),
    {
        put_bytes(out, self.validator_identity.as_slice());
        put_u64(out, self.start_epoch_index);
        put_u64(out, self.unbonding_amount);
        put_u64(out, self.penalty);
        put_bytes(out, self.balance_blinding.as_slice());
        assert(out@ =~= old(out)@ + self.spec_encode());
    }
}

impl DelegatorVotePlan {
    /// The encoding of this plan.
    pub open spec fn spec_encode(self) -> Seq<u8> {
        u64_bytes(self.proposal) + u64_bytes(self.start_position) + seq![self.vote]
            + self.staked_note.spec_encode() + u64_bytes(self.position) + u64_bytes(
            self.unbonded_amount,
        ) + self.randomizer@
    }

    /// Appends the encoding of this plan.
    pub fn encode_into(&self, out: &mut Vec<u8>)
        ensures
            final(out)@ == old(out)@ + self.spec_encode(),
    {
        put_u64(out, self.proposal);
        put_u64(out, self.start_position);
        put_u8(out, self.vote);
        self.staked_note.encode_into(out);
        put_u64(out, self.position);
        put_u64(out, self.unbonded_amount);
        put_bytes(out, self.randomizer.as_slice());
        assert(out@ =~= old(out)@ + self.spec_encode());
    }
}

impl PublicAction {
    /// The encoding of this action: its payload.
    pub open spec fn spec_encode(self) -> Seq<u8> {
        self.payload@
    }

    /// Appends the encoding of this action.
    pub fn encode_into(&self, out: &mut Vec<u8>)
        ensures
            final(out)@ == old(out)@ + self.spec_encode(),
    {
        put_bytes(out, self.payload.as_slice());
    }

    /// A copy of this action.
    pub fn duplicate(&self) -> (copy: PublicAction)
        ensures
            copy.payload@ == self.payload@,
    {
        let mut payload: Vec<u8> = Vec::new();
        put_bytes(&mut payload, self.payload.as_slice());
        assert(payload@ =~= self.payload@);
        PublicAction { payload }
    }
}

impl ActionPlan {
    /// The category of the action that is planned.
    pub open spec fn spec_category(self) -> Category {
        match self {
            ActionPlan::Spend(_) => Category::Spend,
            ActionPlan::Output(_) => Category::Output,
            ActionPlan::Swap(_) => Category::Swap,
            ActionPlan::SwapClaim(_) => Category::SwapClaim,
            ActionPlan::Delegate(_) => Category::Delegate,
            ActionPlan::Undelegate(_) => Category::Undelegate,
            ActionPlan::UndelegateClaim(_) => Category::UndelegateClaim,
            ActionPlan::ProposalSubmit(_) => Category::ProposalSubmit,
            ActionPlan::ProposalWithdraw(_) => Category::ProposalWithdraw,
            ActionPlan::ValidatorVote(_) => Category::ValidatorVote,
            ActionPlan::DelegatorVote(_) => Category::DelegatorVote,
            ActionPlan::ProposalDepositClaim(_) => Category::ProposalDepositClaim,
            ActionPlan::ValidatorDefinition(_) => Category::ValidatorDefinition,
            ActionPlan::IbcAction(_) => Category::IbcAction,
            ActionPlan::DaoSpend(_) => Category::DaoSpend,
            ActionPlan::DaoOutput(_) => Category::DaoOutput,
            ActionPlan::DaoDeposit(_) => Category::DaoDeposit,
        }
    }

    /// The category of the action that is planned.
    pub fn category(&self) -> (category: Category)
        ensures
            category == self.spec_category(),
    {
        match self {
            ActionPlan::Spend(_) => Category::Spend,
            ActionPlan::Output(_) => Category::Output,
            ActionPlan::Swap(_) => Category::Swap,
            ActionPlan::SwapClaim(_) => Category::SwapClaim,
            ActionPlan::Delegate(_) => Category::Delegate,
            ActionPlan::Undelegate(_) => Category::Undelegate,
            ActionPlan::UndelegateClaim(_) => Category::UndelegateClaim,
            ActionPlan::ProposalSubmit(_) => Category::ProposalSubmit,
            ActionPlan::ProposalWithdraw(_) => Category::ProposalWithdraw,
            ActionPlan::ValidatorVote(_) => Category::ValidatorVote,
            ActionPlan::DelegatorVote(_) => Category::DelegatorVote,
            ActionPlan::ProposalDepositClaim(_) => Category::ProposalDepositClaim,
            ActionPlan::ValidatorDefinition(_) => Category::ValidatorDefinition,
            ActionPlan::IbcAction(_) => Category::IbcAction,
            ActionPlan::DaoSpend(_) => Category::DaoSpend,
            ActionPlan::DaoOutput(_) => Category::DaoOutput,
            ActionPlan::DaoDeposit(_) => Category::DaoDeposit,
        }
    }

    /// The encoding of this plan: the rank of its category, then the encoding
    /// of what is planned.
    pub open spec fn spec_encode(self) -> Seq<u8> {
        seq![self.spec_category().spec_rank()] + match self {
            ActionPlan::Spend(inner) => inner.spec_encode(),
            ActionPlan::Output(inner) => inner.spec_encode(),
            ActionPlan::Swap(inner) => inner.spec_encode(),
            ActionPlan::SwapClaim(inner) => inner.spec_encode(),
            ActionPlan::Delegate(inner) => inner.spec_encode(),
            ActionPlan::Undelegate(inner) => inner.spec_encode(),
            ActionPlan::UndelegateClaim(inner) => inner.spec_encode(),
            ActionPlan::ProposalSubmit(inner) => inner.spec_encode(),
            ActionPlan::ProposalWithdraw(inner) => inner.spec_encode(),
            ActionPlan::ValidatorVote(inner) => inner.spec_encode(),
            ActionPlan::DelegatorVote(inner) => inner.spec_encode(),
            ActionPlan::ProposalDepositClaim(inner) => inner.spec_encode(),
            ActionPlan::ValidatorDefinition(inner) => inner.spec_encode(),
            ActionPlan::IbcAction(inner) => inner.spec_encode(),
            ActionPlan::DaoSpend(inner) => inner.spec_encode(),
            ActionPlan::DaoOutput(inner) => inner.spec_encode(),
            ActionPlan::DaoDeposit(inner) => inner.spec_encode(),
        }
    }

    /// Encodes this plan.
    pub fn encode(&self) -> (encoded: Vec<u8>)
        ensures
            encoded@ == self.spec_encode(),
    {
        let mut out: Vec<u8> = Vec::new();
        put_u8(&mut out, self.category().rank());
        match self {
            ActionPlan::Spend(inner) => inner.encode_into(&mut out),
            ActionPlan::Output(inner) => inner.encode_into(&mut out),
            ActionPlan::Swap(inner) => inner.encode_into(&mut out),
            ActionPlan::SwapClaim(inner) => inner.encode_into(&mut out),
            ActionPlan::Delegate(inner) => inner.encode_into(&mut out),
            ActionPlan::Undelegate(inner) => inner.encode_into(&mut out),
            ActionPlan::UndelegateClaim(inner) => inner.encode_into(&mut out),
            ActionPlan::ProposalSubmit(inner) => inner.encode_into(&mut out),
            ActionPlan::ProposalWithdraw(inner) => inner.encode_into(&mut out),
            ActionPlan::ValidatorVote(inner) => inner.encode_into(&mut out),
            ActionPlan::DelegatorVote(inner) => inner.encode_into(&mut out),
            ActionPlan::ProposalDepositClaim(inner) => inner.encode_into(&mut out),
            ActionPlan::ValidatorDefinition(inner) => inner.encode_into(&mut out),
            ActionPlan::IbcAction(inner) => inner.encode_into(&mut out),
            ActionPlan::DaoSpend(inner) => inner.encode_into(&mut out),
            ActionPlan::DaoOutput(inner) => inner.encode_into(&mut out),
            ActionPlan::DaoDeposit(inner) => inner.encode_into(&mut out),
        }
        assert(out@ =~= self.spec_encode());
        out
    }

    /// The blinding factor that the planned action contributes to the
    /// transaction's binding key, if it contributes one.
    pub open spec fn spec_blinding(self) -> Option<[u8; 32]> {
        match self {
            ActionPlan::Spend(plan) => Some(plan.value_blinding),
            ActionPlan::Output(plan) => Some(plan.value_blinding),
            ActionPlan::Swap(plan) => Some(plan.fee_blinding),
            ActionPlan::UndelegateClaim(plan) => Some(plan.balance_blinding),
            _ => None,
        }
    }

    /// The blinding factor that the planned action contributes to the
    /// transaction's binding key, if it contributes one.
    pub fn blinding(&self) -> (blinding: Option<[u8; 32]>)
        ensures
            blinding == self.spec_blinding(),
            blinding is Some <==> self.spec_category().spec_is_blinded(),
    {
        match self {
            ActionPlan::Spend(plan) => Some(plan.value_blinding),
            ActionPlan::Output(plan) => Some(plan.value_blinding),
            ActionPlan::Swap(plan) => Some(plan.fee_blinding),
            ActionPlan::UndelegateClaim(plan) => Some(plan.balance_blinding),
            _ => None,
        }
    }

    /// The commitment for which the planned action needs an inclusion proof,
    /// if it needs one.
    pub open spec fn spec_commitment(self) -> Option<[u8; 32]> {
        match self {
            ActionPlan::Spend(plan) => Some(bytes32(plan.note.spec_commit())),
            ActionPlan::SwapClaim(plan) => Some(
                bytes32(plan.swap_plaintext.spec_swap_commitment()),
            ),
            ActionPlan::DelegatorVote(plan) => Some(bytes32(plan.staked_note.spec_commit())),
            _ => None,
        }
    }

    /// Computes the commitment for which the planned action needs an inclusion
    /// proof, if it needs one.
    pub fn commitment(&self) -> (commitment: Option<[u8; 32]>)
        ensures
            commitment == self.spec_commitment(),
            commitment is Some <==> self.spec_category().spec_needs_proof(),
    {
        match self {
            ActionPlan::Spend(plan) => {
                let cm = plan.note.commit();
                proof {
                    crate::bytes::lemma_bytes32(cm);
                }
                Some(cm)
            },
            ActionPlan::SwapClaim(plan) => {
                let cm = plan.swap_plaintext.swap_commitment();
                proof {
                    crate::bytes::lemma_bytes32(cm);
                }
                Some(cm)
            },
            ActionPlan::DelegatorVote(plan) => {
                let cm = plan.staked_note.commit();
                proof {
                    crate::bytes::lemma_bytes32(cm);
                }
                Some(cm)
            },
            _ => None,
        }
    }
}

} // verus!
