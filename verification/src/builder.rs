//! Building a transaction from a plan.
//!
//! The builder checks that there is one signature for every action that
//! needs one, makes the actions category by category in canonical order,
//! sums the blinding factors on the way, and signs the finished body with the
//! key that belongs to the sum.

use vstd::prelude::*;
use crate::action::Action;
use crate::assemble::{built_from, make_action, spec_missing, Context};
use crate::blinding::{blinding_sum_in, zero_scalar, BlindingAccumulator};
use crate::bytes::{bytes32, lemma_bytes32};
use crate::cipher::opt_vec;
use crate::error::{Category, Error, CATEGORY_COUNT};
use crate::keys::{FullViewingKey, OutgoingViewingKey};
use crate::order::{
    count_category, lemma_of_category_prefix, lemma_of_category_step, of_category,
};
use crate::plan::ActionPlan;
use crate::rdsa::{
    binding_signature, binding_signature_verifies, binding_verification_key, sign_binding,
};
use crate::transaction::{
    Clue, CluePlan, MemoPlan, Transaction, TransactionBody, TransactionPlan,
};
use crate::witness::{AuthorizationData, Proof, WitnessData};

verus! {

/// What the builder has put together before it signs: the actions in
/// canonical order, the clues, the encrypted memo and the sum of the blinding
/// factors.
#[derive(Clone, Debug, PartialEq, Eq)]
pub struct Assembly {
    pub actions: Vec<Action>,
    pub fmd_clues: Vec<Clue>,
    pub memo: Option<Vec<u8>>,
    pub blinding_sum: [u8; 32],
}

/// Whether `actions` are the actions made from the plans in `block`, one for
/// one and in order.
pub open spec fn block_built(actions: Seq<Action>, block: Seq<ActionPlan>, ctx: Context) -> bool {
    &&& actions.len() == block.len()
    &&& forall|k: int|
        0 <= k < block.len() ==> #[trigger] built_from(actions[k], block[k], k, ctx)
}

/// Whether `actions` are the actions made from those of `plans` whose category
/// is among the first `ranks` categories: block after block in canonical
/// order, and within a block in the order of the plan.
pub open spec fn built_upto(
    actions: Seq<Action>,
    plans: Seq<ActionPlan>,
    ranks: nat,
    ctx: Context,
) -> bool
    decreases ranks,
{
    if ranks == 0 {
        actions.len() == 0
    } else {
        let block = of_category(plans, Category::spec_from_rank((ranks - 1) as u8));
        let split = actions.len() - block.len();
        &&& split >= 0
        &&& built_upto(actions.take(split), plans, (ranks - 1) as nat, ctx)
        &&& block_built(actions.skip(split), block, ctx)
    }
}

/// The first commitment, in the order of `plans`, for which a plan needs an
/// inclusion proof that is not among `proofs`.
pub open spec fn first_missing_in(plans: Seq<ActionPlan>, proofs: Seq<Proof>) -> Option<[u8; 32]>
    decreases plans.len(),
{
    if plans.len() == 0 {
        None
    } else {
        match first_missing_in(plans.drop_last(), proofs) {
            Some(commitment) => Some(commitment),
            None => spec_missing(plans.last(), proofs),
        }
    }
}

/// The first commitment, in canonical order, for which one of those of
/// `plans` whose category is among the first `ranks` categories needs an
/// inclusion proof that is not among `proofs`.
pub open spec fn first_missing_upto(plans: Seq<ActionPlan>, ranks: nat, proofs: Seq<Proof>) -> Option<
    [u8; 32],
>
    decreases ranks,
{
    if ranks == 0 {
        None
    } else {
        match first_missing_upto(plans, (ranks - 1) as nat, proofs) {
            Some(commitment) => Some(commitment),
            None => first_missing_in(
                of_category(plans, Category::spec_from_rank((ranks - 1) as u8)),
                proofs,
            ),
        }
    }
}

/// The sum of the blinding factors of those of `plans` whose category is among
/// the first `ranks` categories, added in canonical order.
pub open spec fn blinding_sum_upto(plans: Seq<ActionPlan>, ranks: nat) -> Seq<u8>
    decreases ranks,
{
    if ranks == 0 {
        zero_scalar()
    } else {
        blinding_sum_in(
            of_category(plans, Category::spec_from_rank((ranks - 1) as u8)),
            blinding_sum_upto(plans, (ranks - 1) as nat),
        )
    }
}

/// The key under which the payloads of outputs are encrypted: the key of the
/// memo where there is a memo, and a key of zero bytes where there is none.
pub open spec fn spec_memo_key(memo_plan: Option<MemoPlan>) -> [u8; 32] {
    match memo_plan {
        Some(plan) => plan.key,
        None => bytes32(Seq::new(32, |i: int| 0u8)),
    }
}

/// The encrypted memo of a transaction with the memo plan `memo_plan`.
pub open spec fn spec_memo(memo_plan: Option<MemoPlan>) -> Option<Seq<u8>> {
    match memo_plan {
        Some(plan) => plan.spec_memo(),
        None => None,
    }
}

/// The clues that `plans` describe, in order.
pub open spec fn spec_clues(plans: Seq<CluePlan>) -> Seq<Clue> {
    Seq::new(plans.len(), |i: int| plans[i].spec_clue())
}

/// What the actions of `plan` are made with.
pub open spec fn spec_context(
    plan: TransactionPlan,
    fvk: FullViewingKey,
    auth_data: AuthorizationData,
    witness_data: WitnessData,
) -> Context {
    Context {
        fvk,
        ovk: fvk.spec_outgoing(),
        memo_key: spec_memo_key(plan.memo_plan),
        spend_auths: auth_data.spend_auths@,
        delegator_vote_auths: auth_data.delegator_vote_auths@,
        proofs: witness_data.state_commitment_proofs@,
    }
}

/// The mismatch between the signatures at hand and the actions of `plans`
/// that have to be signed, if there is one: the number of spend signatures is
/// held against the number of spends, then the number of vote signatures
/// against the number of delegator votes.
pub open spec fn spec_input_mismatch(plans: Seq<ActionPlan>, auth_data: AuthorizationData) -> Option<
    Error,
> {
    let spends = of_category(plans, Category::Spend).len();
    let votes = of_category(plans, Category::DelegatorVote).len();
    if auth_data.spend_auths@.len() != spends {
        Some(
            Error::InputMismatch {
                category: Category::Spend,
                expected: spends as usize,
                found: auth_data.spend_auths@.len() as usize,
            },
        )
    } else if auth_data.delegator_vote_auths@.len() != votes {
        Some(
            Error::InputMismatch {
                category: Category::DelegatorVote,
                expected: votes as usize,
                found: auth_data.delegator_vote_auths@.len() as usize,
            },
        )
    } else {
        None
    }
}

/// Why `plan` cannot be built with the given signatures and proofs, if it
/// cannot.
///
/// A mismatch between the signatures and the actions to be signed comes
/// first. After that the first action in canonical order whose inclusion proof
/// is missing decides.
pub open spec fn spec_failure(
    plan: TransactionPlan,
    auth_data: AuthorizationData,
    witness_data: WitnessData,
) -> Option<Error> {
    match spec_input_mismatch(plan.actions@, auth_data) {
        Some(e) => Some(e),
        None => match first_missing_upto(
            plan.actions@,
            CATEGORY_COUNT as nat,
            witness_data.state_commitment_proofs@,
        ) {
            Some(commitment) => Some(Error::MissingProof { commitment }),
            None => None,
        },
    }
}

/// Whether `assembly` is what the builder puts together for `plan`.
pub open spec fn assembled(
    assembly: Assembly,
    plan: TransactionPlan,
    fvk: FullViewingKey,
    auth_data: AuthorizationData,
    witness_data: WitnessData,
) -> bool {
    &&& built_upto(
        assembly.actions@,
        plan.actions@,
        CATEGORY_COUNT as nat,
        spec_context(plan, fvk, auth_data, witness_data),
    )
    &&& assembly.fmd_clues@ == spec_clues(plan.clue_plans@)
    &&& opt_vec(assembly.memo) == spec_memo(plan.memo_plan)
    &&& assembly.blinding_sum@ == blinding_sum_upto(plan.actions@, CATEGORY_COUNT as nat)
}

/// Once a proof is found missing, plans that come later do not change which
/// one is missing first.
pub proof fn lemma_first_missing_prefix(plans: Seq<ActionPlan>, len: int, proofs: Seq<Proof>)
    requires
        0 <= len <= plans.len(),
        first_missing_in(plans.take(len), proofs) is Some,
    ensures
        first_missing_in(plans, proofs) == first_missing_in(plans.take(len), proofs),
    decreases plans.len() - len,
{
    if len == plans.len() {
        assert(plans.take(len) =~= plans);
    } else {
        assert(plans.take(len + 1).drop_last() =~= plans.take(len));
        lemma_first_missing_prefix(plans, len + 1, proofs);
    }
}

/// Once a proof is found missing in one category, later categories do not
/// change which one is missing first.
pub proof fn lemma_first_missing_stays(
    plans: Seq<ActionPlan>,
    ranks: nat,
    more: nat,
    proofs: Seq<Proof>,
)
    requires
        ranks <= more,
        first_missing_upto(plans, ranks, proofs) is Some,
    ensures
        first_missing_upto(plans, more, proofs) == first_missing_upto(plans, ranks, proofs),
    decreases more - ranks,
{
    if ranks < more {
        lemma_first_missing_stays(plans, ranks, (more - 1) as nat, proofs);
    }
}

/// Makes the actions of one category and appends them to `actions`, adding
/// their blinding factors to `accumulator`.
fn assemble_category(
    plans: &Vec<ActionPlan>,
    category: Category,
    fvk: &FullViewingKey,
    ovk: &OutgoingViewingKey,
    memo_key: &[u8; 32],
    auth_data: &AuthorizationData,
    witness_data: &WitnessData,
    actions: &mut Vec<Action>,
    accumulator: &mut BlindingAccumulator,
) -> (r: Result<(), Error>)
    requires
        auth_data.spend_auths@.len() == of_category(plans@, Category::Spend).len(),
        auth_data.delegator_vote_auths@.len() == of_category(
            plans@,
            Category::DelegatorVote,
        ).len(),
    ensures
        match first_missing_in(
            of_category(plans@, category),
            witness_data.state_commitment_proofs@,
        ) {
            Some(commitment) => r == Err::<(), Error>(Error::MissingProof { commitment }),
            None => {
                &&& r is Ok
                &&& final(actions)@.len() == old(actions)@.len() + of_category(
                    plans@,
                    category,
                ).len()
                &&& final(actions)@.take(old(actions)@.len() as int) == old(actions)@
                &&& block_built(
                    final(actions)@.skip(old(actions)@.len() as int),
                    of_category(plans@, category),
                    Context {
                        fvk: *fvk,
                        ovk: *ovk,
                        memo_key: *memo_key,
                        spend_auths: auth_data.spend_auths@,
                        delegator_vote_auths: auth_data.delegator_vote_auths@,
                        proofs: witness_data.state_commitment_proofs@,
                    },
                )
                &&& final(accumulator)@ == blinding_sum_in(
                    of_category(plans@, category),
                    old(accumulator)@,
                )
            },
        },
{
    let ghost ctx = Context {
        fvk: *fvk,
        ovk: *ovk,
        memo_key: *memo_key,
        spend_auths: auth_data.spend_auths@,
        delegator_vote_auths: auth_data.delegator_vote_auths@,
        proofs: witness_data.state_commitment_proofs@,
    };
    let ghost proofs = witness_data.state_commitment_proofs@;
    let ghost base = actions@;
    let ghost start = accumulator@;
    let n = plans.len();
    let mut j: usize = 0;
    let mut k: usize = 0;
    assert(actions@.take(base.len() as int) =~= base);
    assert(actions@.skip(base.len() as int) =~= Seq::<Action>::empty());
    while j < n
        invariant
            j <= n,
            n == plans@.len(),
            k <= j,
            k == of_category(plans@.take(j as int), category).len(),
            auth_data.spend_auths@.len() == of_category(plans@, Category::Spend).len(),
            auth_data.delegator_vote_auths@.len() == of_category(
                plans@,
                Category::DelegatorVote,
            ).len(),
            ctx == (Context {
                fvk: *fvk,
                ovk: *ovk,
                memo_key: *memo_key,
                spend_auths: auth_data.spend_auths@,
                delegator_vote_auths: auth_data.delegator_vote_auths@,
                proofs: witness_data.state_commitment_proofs@,
            }),
            proofs == witness_data.state_commitment_proofs@,
            actions@.len() == base.len() + k,
            actions@.take(base.len() as int) == base,
            block_built(
                actions@.skip(base.len() as int),
                of_category(plans@.take(j as int), category),
                ctx,
            ),
            first_missing_in(of_category(plans@.take(j as int), category), proofs) is None,
            accumulator@ == blinding_sum_in(of_category(plans@.take(j as int), category), start),
        decreases n - j,
    {
        let plan = &plans[j];
        let ghost block = of_category(plans@.take(j as int), category);
        let ghost next = of_category(plans@.take(j as int + 1), category);
        proof {
            lemma_of_category_step(plans@, j as int, category);
            lemma_of_category_prefix(plans@, j as int + 1, category);
        }
        if plan.category() == category {
            assert(next == block.push(*plan));
            assert(next.drop_last() =~= block);
            assert(next.last() == *plan);
            match make_action(plan, k, fvk, ovk, memo_key, auth_data, witness_data) {
                Err(e) => {
                    proof {
                        assert(first_missing_in(next, proofs) == spec_missing(*plan, proofs));
                        lemma_first_missing_prefix(
                            of_category(plans@, category),
                            next.len() as int,
                            proofs,
                        );
                    }
                    return Err(e);
                },
                Ok(action) => {
                    let ghost made = actions@.skip(base.len() as int);
                    match plan.blinding() {
                        Some(blinding) => {
                            accumulator.add(&blinding);
                        },
                        None => {},
                    }
                    actions.push(action);
                    k += 1;
                    proof {
                        assert(actions@.skip(base.len() as int) =~= made.push(action));
                        assert(actions@.take(base.len() as int) =~= base);
                        assert forall|i: int| 0 <= i < next.len() implies #[trigger] built_from(
                            actions@.skip(base.len() as int)[i],
                            next[i],
                            i,
                            ctx,
                        ) by {
                            if i < block.len() {
                                assert(built_from(made[i], block[i], i, ctx));
                            }
                        }
                    }
                },
            }
        }
        j += 1;
    }
    assert(plans@.take(n as int) =~= plans@);
    Ok(())
}

/// The key under which the payloads of the outputs of a plan are encrypted:
/// the key of the memo, or a key of zeros where the plan has no memo, so that
/// every output is encrypted under some key.
pub fn payload_key(memo_plan: &Option<MemoPlan>) -> (key: [u8; 32])
    ensures
        key == spec_memo_key(*memo_plan),
{
    match memo_plan {
        Some(memo_plan) => memo_plan.key,
        None => {
            let dummy_payload_key = [0u8; 32];
            proof {
                assert(dummy_payload_key@ =~= Seq::new(32, |i: int| 0u8));
                lemma_bytes32(dummy_payload_key);
            }
            dummy_payload_key
        },
    }
}

/// Encrypts the memo of a plan, where it has one.
pub fn encrypt_memo(memo_plan: &Option<MemoPlan>) -> (memo: Option<Vec<u8>>)
    ensures
        opt_vec(memo) == spec_memo(*memo_plan),
{
    match memo_plan {
        Some(memo_plan) => memo_plan.memo(),
        None => None,
    }
}

/// Makes the clues that `plans` describe, in order.
pub fn make_clues(plans: &Vec<CluePlan>) -> (clues: Vec<Clue>)
    ensures
        clues@ == spec_clues(plans@),
{
    let mut clues: Vec<Clue> = Vec::new();
    let count = plans.len();
    let mut i: usize = 0;
    while i < count
        invariant
            i <= count,
            count == plans@.len(),
            clues@.len() == i,
            forall|m: int| 0 <= m < i ==> clues@[m] == plans@[m].spec_clue(),
        decreases count - i,
    {
        clues.push(plans[i].clue());
        i += 1;
    }
    assert(clues@ =~= spec_clues(plans@));
    clues
}

/// Puts together what `plan` describes: the actions in canonical order, the
/// clues, the encrypted memo and the sum of the blinding factors.
///
/// Fails with `InputMismatch` where the number of spend signatures or of vote
/// signatures is not that of the spends or of the delegator votes of the plan,
/// and with `MissingProof` where the witness data hold no proof for a
/// commitment that an action needs; the first such action in canonical order
/// is the one that is named.
pub fn assemble(
    plan: &TransactionPlan,
    fvk: &FullViewingKey,
    auth_data: &AuthorizationData,
    witness_data: &WitnessData,
) -> (r: Result<Assembly, Error>)
    ensures
        match spec_failure(*plan, *auth_data, *witness_data) {
            Some(e) => r == Err::<Assembly, Error>(e),
            None => r is Ok && assembled(r.unwrap(), *plan, *fvk, *auth_data, *witness_data),
        },
{
    // Do some basic input sanity-checking.
    let spend_count = count_category(&plan.actions, Category::Spend);
    if auth_data.spend_auths.len() != spend_count {
        return Err(
            Error::InputMismatch {
                category: Category::Spend,
                expected: spend_count,
                found: auth_data.spend_auths.len(),
            },
        );
    }
    let vote_count = count_category(&plan.actions, Category::DelegatorVote);
    if auth_data.delegator_vote_auths.len() != vote_count {
        return Err(
            Error::InputMismatch {
                category: Category::DelegatorVote,
                expected: vote_count,
                found: auth_data.delegator_vote_auths.len(),
            },
        );
    }
    let memo = encrypt_memo(&plan.memo_plan);
    let memo_key = payload_key(&plan.memo_plan);
    let ovk = fvk.outgoing();
    let ghost ctx = spec_context(*plan, *fvk, *auth_data, *witness_data);
    let ghost proofs = witness_data.state_commitment_proofs@;
    // Build the actions sorted by category, with all spends first, then all
    // outputs, and so on.
    let mut actions: Vec<Action> = Vec::new();
    let mut accumulator = BlindingAccumulator::new();
    let mut rank: u8 = 0;
    while rank < CATEGORY_COUNT
        invariant
            rank <= CATEGORY_COUNT,
            auth_data.spend_auths@.len() == of_category(plan.actions@, Category::Spend).len(),
            auth_data.delegator_vote_auths@.len() == of_category(
                plan.actions@,
                Category::DelegatorVote,
            ).len(),
            ovk == fvk.spec_outgoing(),
            memo_key == spec_memo_key(plan.memo_plan),
            ctx == spec_context(*plan, *fvk, *auth_data, *witness_data),
            proofs == witness_data.state_commitment_proofs@,
            built_upto(actions@, plan.actions@, rank as nat, ctx),
            first_missing_upto(plan.actions@, rank as nat, proofs) is None,
            accumulator@ == blinding_sum_upto(plan.actions@, rank as nat),
        decreases CATEGORY_COUNT - rank,
    {
        let category = Category::from_rank(rank);
        let ghost base = actions@;
        match assemble_category(
            &plan.actions,
            category,
            fvk,
            &ovk,
            &memo_key,
            auth_data,
            witness_data,
            &mut actions,
            &mut accumulator,
        ) {
            Err(e) => {
                proof {
                    lemma_first_missing_stays(
                        plan.actions@,
                        (rank + 1) as nat,
                        CATEGORY_COUNT as nat,
                        proofs,
                    );
                }
                return Err(e);
            },
            Ok(()) => {
                assert(actions@.len() - of_category(plan.actions@, category).len() == base.len());
            },
        }
        rank += 1;
    }
    let fmd_clues = make_clues(&plan.clue_plans);
    Ok(Assembly { actions, fmd_clues, memo, blinding_sum: accumulator.finalize() })
}

/// Signs `transaction_body` and puts the transaction together.
///
/// The signing key is the one whose secret scalar is `blinding_sum`. The
/// message is the authorizing hash of the body. The randomness of the
/// signature is drawn from `seed`.
pub fn sign(
    transaction_body: TransactionBody,
    blinding_sum: &[u8; 32],
    seed: &[u8; 32],
    anchor: [u8; 32],
) -> (transaction: Transaction)
    ensures
        transaction.transaction_body == transaction_body,
        transaction.anchor == anchor,
        transaction.binding_sig@ == binding_signature(
            blinding_sum@,
            seed@,
            transaction_body.spec_auth_hash(),
        ),
        binding_signature_verifies(
            binding_verification_key(blinding_sum@),
            transaction_body.spec_auth_hash(),
            transaction.binding_sig@,
        ),
{
    let auth_hash = transaction_body.auth_hash();
    let binding_sig = sign_binding(blinding_sum, seed, auth_hash.as_slice());
    Transaction { transaction_body, anchor, binding_sig }
}

/// Whether `transaction` is the transaction that `plan` describes, built with
/// the given keys, signatures, proofs and signing randomness.
pub open spec fn spec_built(
    transaction: Transaction,
    plan: TransactionPlan,
    seed: Seq<u8>,
    fvk: FullViewingKey,
    auth_data: AuthorizationData,
    witness_data: WitnessData,
) -> bool {
    let body = transaction.transaction_body;
    let blinding_sum = blinding_sum_upto(plan.actions@, CATEGORY_COUNT as nat);
    &&& built_upto(
        body.actions@,
        plan.actions@,
        CATEGORY_COUNT as nat,
        spec_context(plan, fvk, auth_data, witness_data),
    )
    &&& body.expiry_height == plan.expiry_height
    &&& body.valid_after == plan.valid_after
    &&& body.valid_before == plan.valid_before
    &&& body.chain_id@ == plan.chain_id@
    &&& body.fee == plan.fee
    &&& body.fmd_clues@ == spec_clues(plan.clue_plans@)
    &&& opt_vec(body.memo) == spec_memo(plan.memo_plan)
    &&& transaction.anchor == witness_data.anchor
    &&& transaction.binding_sig@ == binding_signature(blinding_sum, seed, body.spec_auth_hash())
    &&& binding_signature_verifies(
        binding_verification_key(blinding_sum),
        body.spec_auth_hash(),
        transaction.binding_sig@,
    )
}

impl TransactionPlan {
    /// Builds the transaction this plan describes.
    ///
    /// To turn a transaction plan into a transaction, we need:
    ///
    /// - `seed`, from which the randomness of the binding signature is drawn;
    /// - `fvk`, the full viewing key for the source funds;
    /// - `auth_data`, the signatures authorizing the transaction;
    /// - `witness_data`, the inclusion proofs and their anchor.
    ///
    /// The build fails as a whole or succeeds as a whole: on failure nothing of
    /// a transaction is returned.
    pub fn build(
        self,
        seed: &[u8; 32],
        fvk: &FullViewingKey,
        auth_data: AuthorizationData,
        witness_data: WitnessData,
    ) -> (r: Result<Transaction, Error>)
        ensures
            match spec_failure(self, auth_data, witness_data) {
                Some(e) => r == Err::<Transaction, Error>(e),
                None => r is Ok && spec_built(
                    r.unwrap(),
                    self,
                    seed@,
                    *fvk,
                    auth_data,
                    witness_data,
                ),
            },
    {
        let assembly = match assemble(&self, fvk, &auth_data, &witness_data) {
            Ok(assembly) => assembly,
            Err(e) => {
                return Err(e);
            },
        };
        let transaction_body = TransactionBody {
            actions: assembly.actions,
            expiry_height: self.expiry_height,
            valid_after: self.valid_after,
            valid_before: self.valid_before,
            chain_id: self.chain_id,
            fee: self.fee,
            fmd_clues: assembly.fmd_clues,
            memo: assembly.memo,
        };
        // Finally, compute the binding signature and assemble the transaction.
        Ok(sign(transaction_body, &assembly.blinding_sum, seed, witness_data.anchor))
    }
}

} // verus!
