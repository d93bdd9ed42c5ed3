//! What can go wrong while a transaction is built or checked.

use vstd::prelude::*;

verus! {

/// The kinds of action a transaction can hold, in the order in which a
/// transaction lists them.
#[derive(Clone, Copy, Debug, PartialEq, Eq, Structural)]
pub enum Category {
    Spend,
    Output,
    Swap,
    SwapClaim,
    Delegate,
    Undelegate,
    UndelegateClaim,
    ProposalSubmit,
    ProposalWithdraw,
    ValidatorVote,
    DelegatorVote,
    ProposalDepositClaim,
    ValidatorDefinition,
    IbcAction,
    DaoSpend,
    DaoOutput,
    DaoDeposit,
}

/// The number of categories.
pub const CATEGORY_COUNT: u8 = 17;

impl Category {
    /// The place of this category in the canonical order, counted from 0.
    pub open spec fn spec_rank(self) -> u8 {
        match self {
            Category::Spend => 0,
            Category::Output => 1,
            Category::Swap => 2,
            Category::SwapClaim => 3,
            Category::Delegate => 4,
            Category::Undelegate => 5,
            Category::UndelegateClaim => 6,
            Category::ProposalSubmit => 7,
            Category::ProposalWithdraw => 8,
            Category::ValidatorVote => 9,
            Category::DelegatorVote => 10,
            Category::ProposalDepositClaim => 11,
            Category::ValidatorDefinition => 12,
            Category::IbcAction => 13,
            Category::DaoSpend => 14,
            Category::DaoOutput => 15,
            Category::DaoDeposit => 16,
        }
    }

    /// The category at place `rank` of the canonical order; the last category
    /// for every place past the end.
    pub open spec fn spec_from_rank(rank: u8) -> Category {
        if rank == 0 {
            Category::Spend
        } else if rank == 1 {
            Category::Output
        } else if rank == 2 {
            Category::Swap
        } else if rank == 3 {
            Category::SwapClaim
        } else if rank == 4 {
            Category::Delegate
        } else if rank == 5 {
            Category::Undelegate
        } else if rank == 6 {
            Category::UndelegateClaim
        } else if rank == 7 {
            Category::ProposalSubmit
        } else if rank == 8 {
            Category::ProposalWithdraw
        } else if rank == 9 {
            Category::ValidatorVote
        } else if rank == 10 {
            Category::DelegatorVote
        } else if rank == 11 {
            Category::ProposalDepositClaim
        } else if rank == 12 {
            Category::ValidatorDefinition
        } else if rank == 13 {
            Category::IbcAction
        } else if rank == 14 {
            Category::DaoSpend
        } else if rank == 15 {
            Category::DaoOutput
        } else {
            Category::DaoDeposit
        }
    }

    /// The place of this category in the canonical order, counted from 0.
    pub fn rank(&self) -> (rank: u8)
        ensures
            rank == self.spec_rank(),
            rank < CATEGORY_COUNT,
            Category::spec_from_rank(rank) == *self,
    {
        match self {
            Category::Spend => 0,
            Category::Output => 1,
            Category::Swap => 2,
            Category::SwapClaim => 3,
            Category::Delegate => 4,
            Category::Undelegate => 5,
            Category::UndelegateClaim => 6,
            Category::ProposalSubmit => 7,
            Category::ProposalWithdraw => 8,
            Category::ValidatorVote => 9,
            Category::DelegatorVote => 10,
            Category::ProposalDepositClaim => 11,
            Category::ValidatorDefinition => 12,
            Category::IbcAction => 13,
            Category::DaoSpend => 14,
            Category::DaoOutput => 15,
            Category::DaoDeposit => 16,
        }
    }

    /// The category at place `rank` of the canonical order.
    pub fn from_rank(rank: u8) -> (category: Category)
        requires
            rank < CATEGORY_COUNT,
        ensures
            category == Category::spec_from_rank(rank),
            category.spec_rank() == rank,
    {
        if rank == 0 {
            Category::Spend
        } else if rank == 1 {
            Category::Output
        } else if rank == 2 {
            Category::Swap
        } else if rank == 3 {
            Category::SwapClaim
        } else if rank == 4 {
            Category::Delegate
        } else if rank == 5 {
            Category::Undelegate
        } else if rank == 6 {
            Category::UndelegateClaim
        } else if rank == 7 {
            Category::ProposalSubmit
        } else if rank == 8 {
            Category::ProposalWithdraw
        } else if rank == 9 {
            Category::ValidatorVote
        } else if rank == 10 {
            Category::DelegatorVote
        } else if rank == 11 {
            Category::ProposalDepositClaim
        } else if rank == 12 {
            Category::ValidatorDefinition
        } else if rank == 13 {
            Category::IbcAction
        } else if rank == 14 {
            Category::DaoSpend
        } else if rank == 15 {
            Category::DaoOutput
        } else {
            Category::DaoDeposit
        }
    }

    /// Whether actions of this category are built with an inclusion proof.
    pub open spec fn spec_needs_proof(self) -> bool {
        self == Category::Spend || self == Category::SwapClaim || self == Category::DelegatorVote
    }

    /// Whether actions of this category commit to their value under a blinding
    /// factor. The others show their value in public.
    pub open spec fn spec_is_blinded(self) -> bool {
        self == Category::Spend || self == Category::Output || self == Category::Swap || self
            == Category::UndelegateClaim
    }
}

/// The canonical order lists every category once.
pub proof fn lemma_rank_bijective(category: Category, rank: u8)
    ensures
        category.spec_rank() < CATEGORY_COUNT,
        Category::spec_from_rank(category.spec_rank()) == category,
        rank < CATEGORY_COUNT ==> Category::spec_from_rank(rank).spec_rank() == rank,
{
}

/// The integrity checks, by what each one recomputes.
#[derive(Clone, Copy, Debug, PartialEq, Eq, Structural)]
pub enum IntegrityCheck {
    /// The nullifier does not belong to the note and its position.
    Nullifier,
    /// The note's fields do not match the commitment.
    NoteCommitment,
    /// The balance does not match the commitment.
    BalanceCommitment,
    /// The address is not derived from the viewing key.
    DiversifiedAddress,
    /// The diversified generator is the identity.
    DiversifiedBasepoint,
    /// The randomized key is not derived from the spend verification key.
    RandomizedKey,
}

/// The parts of the input that can be malformed.
#[derive(Clone, Copy, Debug, PartialEq, Eq, Structural)]
pub enum Malformed {
    /// A string of bytes does not encode a group element.
    GroupElement,
    /// A message lacks its trading pair.
    MissingTradingPair,
    /// A string of bytes is missing or does not encode an asset.
    AssetId,
    /// A response carries no data.
    EmptyResponse,
    /// A string of bytes does not encode a commitment.
    Commitment,
    /// A string of bytes does not encode a nullifier, or the nullifier is
    /// missing.
    Nullifier,
    /// A string of bytes is not a payload key.
    PayloadKey,
    /// A note does not decode, or is missing.
    Note,
    /// An address does not decode.
    Address,
}

/// The failures of building and checking.
#[derive(Clone, Copy, Debug, PartialEq, Eq)]
pub enum Error {
    /// The authorization data holds another number of signatures than the plan
    /// has actions of that category.
    InputMismatch { category: Category, expected: usize, found: usize },
    /// The witness data holds no inclusion proof for this commitment.
    MissingProof { commitment: [u8; 32] },
    /// The input does not decode or contradicts itself.
    MalformedInput { what: Malformed },
    /// An integrity check has failed.
    IntegrityViolation { check: IntegrityCheck },
    /// A unit of work of the concurrent build did not deliver its action.
    ConcurrencyFailure { category: Category, index: usize },
}

} // verus!
