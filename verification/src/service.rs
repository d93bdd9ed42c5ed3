//! What the view service decides: whether a request is for this account, how
//! far the client lags behind the chain, which inclusion proofs a plan needs,
//! and how the witness data for a plan are put together.

use vstd::prelude::*;
use crate::action::Action;
use crate::assemble::spec_missing;
use crate::builder::{first_missing_in, first_missing_upto, spec_built};
use crate::bytes::{bytes32_eq, lemma_bytes32};
use crate::error::{Category, Error, CATEGORY_COUNT};
use crate::keys::{spec_derive_nullifier, FullViewingKey};
use crate::order::{lemma_of_category_members, lemma_of_category_step, of_category};
use crate::plan::ActionPlan;
use crate::transaction::{Transaction, TransactionPlan};
use crate::wire::{field_element, spec_field_element};
use crate::witness::{
    find_proof, lemma_find_proof_sound, AuthorizationData, Proof, WitnessData,
};

verus! {

/// The failures of the view service.
#[derive(Clone, Copy, Debug, PartialEq, Eq)]
pub enum ServiceError {
    /// The request names no account.
    MissingAccountId,
    /// The request names another account than the one that is served.
    InvalidAccountId,
    /// The client claims to have seen more of the chain than the node has.
    SyncHeightAhead,
    /// A commitment of the request does not decode.
    MalformedCommitment,
    /// The accumulator holds no proof for a commitment of the request.
    UnknownCommitment { commitment: [u8; 32] },
    /// The operating system gives no randomness for a dummy proof.
    RandomnessUnavailable,
    /// The transaction could not be built.
    Build { error: Error },
}

/// How far the client has come.
#[derive(Clone, Copy, Debug, PartialEq, Eq, Structural)]
pub struct StatusResponse {
    /// The height up to which the client has scanned the chain.
    pub sync_height: u64,
    /// Whether the client still has blocks to scan.
    pub catching_up: bool,
}

/// The accumulator of state commitments as the view service sees it at one
/// moment: its root, and an inclusion proof for every commitment it holds.
#[derive(Clone, Debug, PartialEq, Eq)]
pub struct StateCommitmentTree {
    pub root: [u8; 32],
    pub proofs: Vec<Proof>,
}

/// Checks that a request is for the account that is served.
pub fn check_fvk(served: &[u8; 32], requested: Option<&[u8; 32]>) -> (r: Result<(), ServiceError>)
    ensures
        r == match requested {
            Some(account) => if *account == *served {
                Ok::<(), ServiceError>(())
            } else {
                Err::<(), ServiceError>(ServiceError::InvalidAccountId)
            },
            None => Err::<(), ServiceError>(ServiceError::MissingAccountId),
        },
{
    match requested {
        Some(account) => {
            if bytes32_eq(account, served) {
                Ok(())
            } else {
                Err(ServiceError::InvalidAccountId)
            }
        },
        None => Err(ServiceError::MissingAccountId),
    }
}

/// What [`status`] returns.
pub open spec fn spec_status(
    last_sync_height: Option<u64>,
    latest_known_block_height: u64,
    node_catching_up: bool,
) -> Result<StatusResponse, ServiceError> {
    let sync_height = match last_sync_height {
        Some(height) => height,
        None => 0,
    };
    if latest_known_block_height < sync_height {
        Err(ServiceError::SyncHeightAhead)
    } else {
        Ok(
            StatusResponse {
                sync_height,
                catching_up: node_catching_up || latest_known_block_height - sync_height > 1,
            },
        )
    }
}

/// Says how far the client has come, and whether it is still catching up.
///
/// A client that has scanned nothing stands at height 0. A client is caught
/// up when the node is, and the client is at the height of the node or one
/// block behind it: that block it will learn of soon. A client that is ahead
/// of the node is an error.
pub fn status(
    last_sync_height: Option<u64>,
    latest_known_block_height: u64,
    node_catching_up: bool,
) -> (r: Result<StatusResponse, ServiceError>)
    ensures
        r == spec_status(last_sync_height, latest_known_block_height, node_catching_up),
{
    let sync_height = match last_sync_height {
        Some(height) => height,
        None => 0,
    };
    if latest_known_block_height < sync_height {
        return Err(ServiceError::SyncHeightAhead);
    }
    let height_diff = latest_known_block_height - sync_height;
    let catching_up = if node_catching_up {
        // The node is behind the network.
        true
    } else {
        // We are behind the node by more than the block we will learn of soon.
        height_diff > 1
    };
    Ok(StatusResponse { sync_height, catching_up })
}

/// Whether the stream of status updates ends after the update with
/// `sync_height`: it ends once the client has reached the height that the node
/// knew of when the stream began.
pub fn status_stream_ends(sync_height: u64, latest_known_block_height: u64) -> (ends: bool)
    ensures
        ends == (sync_height >= latest_known_block_height),
{
    sync_height >= latest_known_block_height
}

/// Whether `plan` is a spend of a note that carries nothing.
pub open spec fn is_dummy_spend(plan: ActionPlan) -> bool {
    plan matches ActionPlan::Spend(spend) && spend.note.value.amount == 0
}

/// The commitments for which the plans in `plans` need inclusion proofs from
/// the accumulator, in order. A dummy spend needs none.
pub open spec fn required_in(plans: Seq<ActionPlan>) -> Seq<[u8; 32]>
    decreases plans.len(),
{
    if plans.len() == 0 {
        Seq::empty()
    } else {
        let before = required_in(plans.drop_last());
        match plans.last().spec_commitment() {
            Some(commitment) => if is_dummy_spend(plans.last()) {
                before
            } else {
                before.push(commitment)
            },
            None => before,
        }
    }
}

/// The commitments of the dummy spends among `plans`, in order.
pub open spec fn dummies_in(plans: Seq<ActionPlan>) -> Seq<[u8; 32]>
    decreases plans.len(),
{
    if plans.len() == 0 {
        Seq::empty()
    } else {
        let before = dummies_in(plans.drop_last());
        if is_dummy_spend(plans.last()) {
            before.push(plans.last().spec_commitment().unwrap())
        } else {
            before
        }
    }
}

/// The commitments for which a plan needs inclusion proofs from the
/// accumulator: those of its spends that are no dummies, then those of its
/// swap claims, then those of its delegator votes.
pub open spec fn spec_required_commitments(plans: Seq<ActionPlan>) -> Seq<[u8; 32]> {
    required_in(of_category(plans, Category::Spend)) + required_in(
        of_category(plans, Category::SwapClaim),
    ) + required_in(of_category(plans, Category::DelegatorVote))
}

/// Appends to `out` the commitments that the plans of `category` need from
/// the accumulator.
fn collect_required(plans: &Vec<ActionPlan>, category: Category, out: &mut Vec<[u8; 32]>)
    ensures
        final(out)@ == old(out)@ + required_in(of_category(plans@, category)),
{
    let n = plans.len();
    let mut j: usize = 0;
    assert(out@ =~= old(out)@ + required_in(of_category(plans@.take(0), category)));
    while j < n
        invariant
            j <= n,
            n == plans@.len(),
            out@ == old(out)@ + required_in(of_category(plans@.take(j as int), category)),
        decreases n - j,
    {
        let plan = &plans[j];
        proof {
            lemma_of_category_step(plans@, j as int, category);
        }
        if plan.category() == category {
            let ghost block = of_category(plans@.take(j as int), category);
            let ghost next = of_category(plans@.take(j as int + 1), category);
            assert(next.drop_last() =~= block);
            assert(next.last() == *plan);
            let dummy = match plan {
                ActionPlan::Spend(spend) => spend.note.is_dummy(),
                _ => false,
            };
            match plan.commitment() {
                Some(commitment) => {
                    if !dummy {
                        out.push(commitment);
                        assert(out@ =~= old(out)@ + required_in(next));
                    }
                },
                None => {},
            }
        }
        j += 1;
    }
    assert(plans@.take(n as int) =~= plans@);
}

/// Lists the commitments for which `plan` needs inclusion proofs from the
/// accumulator.
pub fn required_commitments(plan: &TransactionPlan) -> (required: Vec<[u8; 32]>)
    ensures
        required@ == spec_required_commitments(plan.actions@),
{
    let mut required: Vec<[u8; 32]> = Vec::new();
    collect_required(&plan.actions, Category::Spend, &mut required);
    collect_required(&plan.actions, Category::SwapClaim, &mut required);
    collect_required(&plan.actions, Category::DelegatorVote, &mut required);
    assert(required@ =~= spec_required_commitments(plan.actions@));
    required
}

/// Lists the commitments of the dummy spends of `plan`.
pub fn dummy_commitments(plan: &TransactionPlan) -> (dummies: Vec<[u8; 32]>)
    ensures
        dummies@ == dummies_in(plan.actions@),
{
    let mut dummies: Vec<[u8; 32]> = Vec::new();
    let n = plan.actions.len();
    let mut j: usize = 0;
    assert(plan.actions@.take(0) =~= Seq::<ActionPlan>::empty());
    while j < n
        invariant
            j <= n,
            n == plan.actions@.len(),
            dummies@ == dummies_in(plan.actions@.take(j as int)),
        decreases n - j,
    {
        let planned = &plan.actions[j];
        proof {
            assert(plan.actions@.take(j as int + 1).drop_last() =~= plan.actions@.take(j as int));
            assert(plan.actions@.take(j as int + 1).last() == *planned);
        }
        match planned {
            ActionPlan::Spend(spend) => {
                if spend.note.is_dummy() {
                    let commitment = spend.note.commit();
                    proof {
                        lemma_bytes32(commitment);
                    }
                    dummies.push(commitment);
                }
            },
            _ => {},
        }
        j += 1;
    }
    assert(plan.actions@.take(n as int) =~= plan.actions@);
    dummies
}

/// The first of `commitments` for which `proofs` hold no proof.
pub open spec fn first_unknown(commitments: Seq<[u8; 32]>, proofs: Seq<Proof>) -> Option<[u8; 32]>
    decreases commitments.len(),
{
    if commitments.len() == 0 {
        None
    } else {
        match first_unknown(commitments.drop_last(), proofs) {
            Some(commitment) => Some(commitment),
            None => if find_proof(proofs, commitments.last()) is None {
                Some(commitments.last())
            } else {
                None
            },
        }
    }
}

/// Once a commitment is found unknown, later commitments do not change which
/// one is unknown first.
pub proof fn lemma_first_unknown_prefix(commitments: Seq<[u8; 32]>, len: int, proofs: Seq<Proof>)
    requires
        0 <= len <= commitments.len(),
        first_unknown(commitments.take(len), proofs) is Some,
    ensures
        first_unknown(commitments, proofs) == first_unknown(commitments.take(len), proofs),
    decreases commitments.len() - len,
{
    if len == commitments.len() {
        assert(commitments.take(len) =~= commitments);
    } else {
        assert(commitments.take(len + 1).drop_last() =~= commitments.take(len));
        lemma_first_unknown_prefix(commitments, len + 1, proofs);
    }
}

/// Where no commitment of a list is unknown, every one of them has a proof.
pub proof fn lemma_all_known(commitments: Seq<[u8; 32]>, proofs: Seq<Proof>, k: int)
    requires
        0 <= k < commitments.len(),
        first_unknown(commitments, proofs) is None,
    ensures
        find_proof(proofs, commitments[k]) is Some,
{
    if find_proof(proofs, commitments[k]) is None {
        assert(commitments.take(k + 1).drop_last() =~= commitments.take(k));
        assert(commitments.take(k + 1).last() == commitments[k]);
        lemma_first_unknown_prefix(commitments, k + 1, proofs);
    }
}

/// Whether `witness_data` are the witness data for a request: they are
/// anchored at the root of `tree`, they hold a made-up proof for the
/// commitment of every dummy spend, for every other commitment that was asked
/// for the proof that `tree` holds, and nothing else.
pub open spec fn witnessed(
    witness_data: WitnessData,
    tree: StateCommitmentTree,
    requested: Seq<[u8; 32]>,
    dummies: Seq<[u8; 32]>,
) -> bool {
    &&& witness_data.anchor == tree.root
    &&& forall|commitment: [u8; 32]|
        (#[trigger] witness_data.spec_get(commitment)) is Some ==> witness_data.spec_get(
            commitment,
        ).unwrap().commitment == commitment
    &&& forall|commitment: [u8; 32]|
        dummies.contains(commitment) ==> #[trigger] witness_data.spec_get(commitment) is Some
    &&& forall|commitment: [u8; 32]|
        !dummies.contains(commitment) ==> #[trigger] witness_data.spec_get(commitment) == if requested.contains(
            commitment,
        ) {
            find_proof(tree.proofs@, commitment)
        } else {
            None
        }
}

impl StateCommitmentTree {
    /// The root of the accumulator.
    pub fn root(&self) -> (root: [u8; 32])
        ensures
            root == self.root,
    {
        self.root
    }

    /// The inclusion proof for `commitment`, or `None` where the accumulator
    /// does not hold the commitment.
    pub fn witness(&self, commitment: &[u8; 32]) -> (proof: Option<Proof>)
        ensures
            proof == find_proof(self.proofs@, *commitment),
    {
        let n = self.proofs.len();
        let mut i: usize = 0;
        assert(self.proofs@.skip(0) =~= self.proofs@);
        while i < n
            invariant
                i <= n,
                n == self.proofs@.len(),
                find_proof(self.proofs@, *commitment) == find_proof(
                    self.proofs@.skip(i as int),
                    *commitment,
                ),
            decreases n - i,
        {
            let proof = self.proofs[i];
            if bytes32_eq(&proof.commitment, commitment) {
                return Some(proof);
            }
            assert(self.proofs@.skip(i as int).drop_first() =~= self.proofs@.skip(i as int + 1));
            i += 1;
        }
        None
    }
}

/// Puts together the witness data for `plan`: proofs from `tree` for the
/// commitments in `requested`, all under the one root that `tree` has, and a
/// made-up proof for every dummy spend of the plan.
///
/// Fails with `UnknownCommitment` where `tree` holds no proof for one of the
/// commitments; the first such commitment is named. Where the plan has dummy
/// spends, fails with `RandomnessUnavailable` if the operating system gives no
/// randomness for their proofs.
pub fn witness_for(tree: &StateCommitmentTree, requested: &Vec<[u8; 32]>, plan: &TransactionPlan) -> (r:
    Result<WitnessData, ServiceError>)
    ensures
        match first_unknown(requested@, tree.proofs@) {
            Some(commitment) => r == Err::<WitnessData, ServiceError>(
                ServiceError::UnknownCommitment { commitment },
            ),
            None => match r {
                Ok(witness_data) => witnessed(
                    witness_data,
                    *tree,
                    requested@,
                    dummies_in(plan.actions@),
                ),
                Err(e) => e == ServiceError::RandomnessUnavailable && dummies_in(
                    plan.actions@,
                ).len() > 0,
            },
        },
{
    // Read the root once, so that all proofs are relative to the same root.
    let anchor = tree.root();
    let mut witness_data = WitnessData { anchor, state_commitment_proofs: Vec::new() };
    // Obtain a proof for each requested commitment.
    let n = requested.len();
    let mut i: usize = 0;
    assert(requested@.take(0) =~= Seq::<[u8; 32]>::empty());
    while i < n
        invariant
            i <= n,
            n == requested@.len(),
            witness_data.anchor == tree.root,
            first_unknown(requested@.take(i as int), tree.proofs@) is None,
            forall|commitment: [u8; 32]|
                #[trigger] witness_data.spec_get(commitment) == if requested@.take(
                    i as int,
                ).contains(commitment) {
                    find_proof(tree.proofs@, commitment)
                } else {
                    None
                },
        decreases n - i,
    {
        let commitment = requested[i];
        let ghost before = witness_data;
        proof {
            assert(requested@.take(i as int + 1).drop_last() =~= requested@.take(i as int));
            assert(requested@.take(i as int + 1).last() == commitment);
            lemma_find_proof_sound(tree.proofs@, commitment);
        }
        match tree.witness(&commitment) {
            None => {
                proof {
                    lemma_first_unknown_prefix(requested@, i as int + 1, tree.proofs@);
                }
                return Err(ServiceError::UnknownCommitment { commitment });
            },
            Some(proof) => {
                witness_data.add_proof(proof);
            },
        }
        proof {
            assert forall|c: [u8; 32]| #[trigger]
                witness_data.spec_get(c) == if requested@.take(i as int + 1).contains(c) {
                    find_proof(tree.proofs@, c)
                } else {
                    None
                } by {
                let shorter = requested@.take(i as int);
                let longer = requested@.take(i as int + 1);
                assert(longer =~= shorter.push(commitment));
                if c == commitment {
                    assert(longer[i as int] == c);
                } else {
                    assert(before.spec_get(c) == witness_data.spec_get(c));
                    if shorter.contains(c) {
                        let m = choose|m: int| 0 <= m < shorter.len() && shorter[m] == c;
                        assert(longer[m] == c);
                    }
                    if longer.contains(c) {
                        let m = choose|m: int| 0 <= m < longer.len() && longer[m] == c;
                        assert(shorter[m] == c);
                    }
                }
            }
        }
        i += 1;
    }
    assert(requested@.take(n as int) =~= requested@);
    // Now augment the witness data with dummy proofs, so that the commitments
    // of dummy spends have proofs too.
    let dummies = dummy_commitments(plan);
    let count = dummies.len();
    let mut d: usize = 0;
    proof {
        assert forall|c: [u8; 32]| (#[trigger] witness_data.spec_get(c)) is Some implies witness_data.spec_get(
            c,
        ).unwrap().commitment == c by {
            lemma_find_proof_sound(tree.proofs@, c);
        }
    }
    while d < count
        invariant
            d <= count,
            count == dummies@.len(),
            dummies@ == dummies_in(plan.actions@),
            witness_data.anchor == tree.root,
            first_unknown(requested@, tree.proofs@) is None,
            forall|c: [u8; 32]|
                (#[trigger] witness_data.spec_get(c)) is Some ==> witness_data.spec_get(
                    c,
                ).unwrap().commitment == c,
            forall|c: [u8; 32]|
                dummies@.take(d as int).contains(c) ==> #[trigger] witness_data.spec_get(c) is Some,
            forall|c: [u8; 32]|
                !dummies@.take(d as int).contains(c) ==> #[trigger] witness_data.spec_get(c)
                    == if requested@.contains(c) {
                    find_proof(tree.proofs@, c)
                } else {
                    None
                },
        decreases count - d,
    {
        let commitment = dummies[d];
        let ghost before = witness_data;
        match Proof::dummy(commitment) {
            None => {
                return Err(ServiceError::RandomnessUnavailable);
            },
            Some(proof) => {
                witness_data.add_proof(proof);
            },
        }
        proof {
            let shorter = dummies@.take(d as int);
            let longer = dummies@.take(d as int + 1);
            assert(longer =~= shorter.push(commitment));
            assert forall|c: [u8; 32]| longer.contains(c) implies #[trigger] witness_data.spec_get(
                c,
            ) is Some by {
                if c != commitment {
                    let m = choose|m: int| 0 <= m < longer.len() && longer[m] == c;
                    assert(shorter[m] == c);
                    assert(before.spec_get(c) is Some);
                }
            }
            assert forall|c: [u8; 32]| !longer.contains(c) implies #[trigger] witness_data.spec_get(
                c,
            ) == if requested@.contains(c) {
                find_proof(tree.proofs@, c)
            } else {
                None
            } by {
                assert(longer[d as int] == commitment);
                if shorter.contains(c) {
                    let m = choose|m: int| 0 <= m < shorter.len() && shorter[m] == c;
                    assert(longer[m] == c);
                }
            }
        }
        d += 1;
    }
    assert(dummies@.take(count as int) =~= dummies@);
    Ok(witness_data)
}

/// The commitments that the strings in `raw` encode, if every one of them
/// encodes a commitment.
pub open spec fn spec_parse_commitments(raw: Seq<Vec<u8>>) -> Option<Seq<[u8; 32]>>
    decreases raw.len(),
{
    if raw.len() == 0 {
        Some(Seq::empty())
    } else {
        match (spec_parse_commitments(raw.drop_last()), spec_field_element(raw.last()@)) {
            (Some(before), Some(commitment)) => Some(before.push(commitment)),
            _ => None,
        }
    }
}

/// Once a string fails to decode, the list as a whole fails to decode.
pub proof fn lemma_parse_fails(raw: Seq<Vec<u8>>, len: int)
    requires
        0 <= len <= raw.len(),
        spec_parse_commitments(raw.take(len)) is None,
    ensures
        spec_parse_commitments(raw) is None,
    decreases raw.len() - len,
{
    if len == raw.len() {
        assert(raw.take(len) =~= raw);
    } else {
        assert(raw.take(len + 1).drop_last() =~= raw.take(len));
        lemma_parse_fails(raw, len + 1);
    }
}

/// Decodes the commitments of a request.
pub fn parse_commitments(raw: &Vec<Vec<u8>>) -> (parsed: Option<Vec<[u8; 32]>>)
    ensures
        match spec_parse_commitments(raw@) {
            Some(commitments) => parsed is Some && parsed.unwrap()@ == commitments,
            None => parsed is None,
        },
{
    let mut parsed: Vec<[u8; 32]> = Vec::new();
    let n = raw.len();
    let mut i: usize = 0;
    assert(raw@.take(0) =~= Seq::<Vec<u8>>::empty());
    while i < n
        invariant
            i <= n,
            n == raw@.len(),
            spec_parse_commitments(raw@.take(i as int)) == Some(parsed@),
        decreases n - i,
    {
        proof {
            assert(raw@.take(i as int + 1).drop_last() =~= raw@.take(i as int));
            assert(raw@.take(i as int + 1).last() == raw@[i as int]);
        }
        match field_element(&raw[i]) {
            Some(commitment) => {
                parsed.push(commitment);
            },
            None => {
                proof {
                    lemma_parse_fails(raw@, i as int + 1);
                }
                return None;
            },
        }
        i += 1;
    }
    assert(raw@.take(n as int) =~= raw@);
    Some(parsed)
}

/// Answers a request for witness data: decodes the commitments that were
/// asked for, and puts the witness data for `plan` together as
/// [`witness_for`] does.
///
/// Fails with `MalformedCommitment` where a commitment does not decode, before
/// anything is looked up.
pub fn witness(tree: &StateCommitmentTree, requested: &Vec<Vec<u8>>, plan: &TransactionPlan) -> (r:
    Result<WitnessData, ServiceError>)
    ensures
        match spec_parse_commitments(requested@) {
            None => r == Err::<WitnessData, ServiceError>(ServiceError::MalformedCommitment),
            Some(commitments) => match first_unknown(commitments, tree.proofs@) {
                Some(commitment) => r == Err::<WitnessData, ServiceError>(
                    ServiceError::UnknownCommitment { commitment },
                ),
                None => match r {
                    Ok(witness_data) => witnessed(
                        witness_data,
                        *tree,
                        commitments,
                        dummies_in(plan.actions@),
                    ),
                    Err(e) => e == ServiceError::RandomnessUnavailable && dummies_in(
                        plan.actions@,
                    ).len() > 0,
                },
            },
        },
{
    match parse_commitments(requested) {
        None => Err(ServiceError::MalformedCommitment),
        Some(commitments) => witness_for(tree, &commitments, plan),
    }
}

/// The commitment of a dummy spend is among the dummies.
pub proof fn lemma_dummies_contain(plans: Seq<ActionPlan>, j: int)
    requires
        0 <= j < plans.len(),
        is_dummy_spend(plans[j]),
    ensures
        dummies_in(plans).contains(plans[j].spec_commitment().unwrap()),
    decreases plans.len(),
{
    let before = dummies_in(plans.drop_last());
    if j == plans.len() - 1 {
        assert(dummies_in(plans)[before.len() as int] == plans[j].spec_commitment().unwrap());
    } else {
        lemma_dummies_contain(plans.drop_last(), j);
        let c = plans[j].spec_commitment().unwrap();
        let m = choose|m: int| 0 <= m < before.len() && before[m] == c;
        assert(dummies_in(plans)[m] == c);
    }
}

/// The commitment of a plan that needs a proof and is no dummy spend is among
/// the commitments that are required of its list.
pub proof fn lemma_required_contain(plans: Seq<ActionPlan>, j: int)
    requires
        0 <= j < plans.len(),
        plans[j].spec_commitment() is Some,
        !is_dummy_spend(plans[j]),
    ensures
        required_in(plans).contains(plans[j].spec_commitment().unwrap()),
    decreases plans.len(),
{
    let before = required_in(plans.drop_last());
    if j == plans.len() - 1 {
        assert(required_in(plans)[before.len() as int] == plans[j].spec_commitment().unwrap());
    } else {
        lemma_required_contain(plans.drop_last(), j);
        let c = plans[j].spec_commitment().unwrap();
        let m = choose|m: int| 0 <= m < before.len() && before[m] == c;
        assert(required_in(plans)[m] == c);
    }
}

/// Witness data that were put together for the commitments that a plan
/// requires leave no action of the plan without its proof.
pub proof fn lemma_witnessed_supplies_block(
    witness_data: WitnessData,
    tree: StateCommitmentTree,
    plans: Seq<ActionPlan>,
    category: Category,
)
    requires
        first_unknown(spec_required_commitments(plans), tree.proofs@) is None,
        witnessed(witness_data, tree, spec_required_commitments(plans), dummies_in(plans)),
    ensures
        first_missing_in(of_category(plans, category), witness_data.state_commitment_proofs@)
            is None,
{
    let block = of_category(plans, category);
    let proofs = witness_data.state_commitment_proofs@;
    let required = spec_required_commitments(plans);
    lemma_of_category_members(plans, category);
    assert forall|k: int| 0 <= k < block.len() implies spec_missing(#[trigger] block[k], proofs)
        is None by {
        let plan = block[k];
        if plan.spec_commitment() is Some {
            let c = plan.spec_commitment().unwrap();
            assert(plan.spec_category() == category);
            if is_dummy_spend(plan) {
                let j = choose|j: int| 0 <= j < plans.len() && plans[j] == plan;
                lemma_dummies_contain(plans, j);
                assert(witness_data.spec_get(c) is Some);
            } else {
                lemma_required_contain(block, k);
                let part = required_in(block);
                let m = choose|m: int| 0 <= m < part.len() && part[m] == c;
                let spends = required_in(of_category(plans, Category::Spend));
                let claims = required_in(of_category(plans, Category::SwapClaim));
                let votes = required_in(of_category(plans, Category::DelegatorVote));
                assert(required == spends + claims + votes);
                let at = if category == Category::Spend {
                    m
                } else if category == Category::SwapClaim {
                    spends.len() + m
                } else {
                    spends.len() + claims.len() + m
                };
                assert(required[at] == c);
                lemma_all_known(required, tree.proofs@, at);
                if !dummies_in(plans).contains(c) {
                    assert(witness_data.spec_get(c) == find_proof(tree.proofs@, c));
                } else {
                    assert(witness_data.spec_get(c) is Some);
                }
            }
        }
    }
    crate::laws::lemma_no_missing(block, proofs);
}

/// Witness data that were put together for the commitments that a plan
/// requires hold every proof that the builder looks up.
pub proof fn lemma_witnessed_supplies(
    witness_data: WitnessData,
    tree: StateCommitmentTree,
    plans: Seq<ActionPlan>,
    ranks: nat,
)
    requires
        first_unknown(spec_required_commitments(plans), tree.proofs@) is None,
        witnessed(witness_data, tree, spec_required_commitments(plans), dummies_in(plans)),
    ensures
        first_missing_upto(plans, ranks, witness_data.state_commitment_proofs@) is None,
    decreases ranks,
{
    if ranks > 0 {
        lemma_witnessed_supplies(witness_data, tree, plans, (ranks - 1) as nat);
        lemma_witnessed_supplies_block(
            witness_data,
            tree,
            plans,
            Category::spec_from_rank((ranks - 1) as u8),
        );
    }
}

/// Takes the inclusion proofs that `plan` needs from `tree` and builds the
/// transaction that the plan describes.
///
/// Fails with `UnknownCommitment` where `tree` lacks a commitment that the
/// plan requires, and names the first such commitment. After that the build
/// can fail for want of randomness, where the plan has dummy spends, and with
/// `InputMismatch`, where the signatures are not as many as the actions to be
/// signed. No proof is missing then: a transaction that is returned is built
/// with witness data that hold every proof the plan needs, all under the root
/// of `tree`.
pub fn witness_and_build(
    tree: &StateCommitmentTree,
    plan: TransactionPlan,
    auth_data: AuthorizationData,
    fvk: &FullViewingKey,
    seed: &[u8; 32],
) -> (r: Result<Transaction, ServiceError>)
    ensures
        match first_unknown(spec_required_commitments(plan.actions@), tree.proofs@) {
            Some(commitment) => r == Err::<Transaction, ServiceError>(
                ServiceError::UnknownCommitment { commitment },
            ),
            None => match r {
                Ok(transaction) => {
                    &&& crate::builder::spec_input_mismatch(plan.actions@, auth_data) is None
                    &&& transaction.anchor == tree.root
                    &&& exists|witness_data: WitnessData|
                        {
                            &&& witnessed(
                                witness_data,
                                *tree,
                                spec_required_commitments(plan.actions@),
                                dummies_in(plan.actions@),
                            )
                            &&& #[trigger] spec_built(
                                transaction,
                                plan,
                                seed@,
                                *fvk,
                                auth_data,
                                witness_data,
                            )
                        }
                },
                Err(ServiceError::RandomnessUnavailable) => dummies_in(plan.actions@).len() > 0,
                Err(ServiceError::Build { error }) => crate::builder::spec_input_mismatch(
                    plan.actions@,
                    auth_data,
                ) == Some(error),
                Err(_) => false,
            },
        },
{
    // Ask for proofs only for what the accumulator holds: the commitment of a
    // dummy spend is in no accumulator.
    let requested = required_commitments(&plan);
    let witness_data = match witness_for(tree, &requested, &plan) {
        Ok(witness_data) => witness_data,
        Err(e) => {
            return Err(e);
        },
    };
    proof {
        lemma_witnessed_supplies(witness_data, *tree, plan.actions@, CATEGORY_COUNT as nat);
    }
    match plan.build(seed, fvk, auth_data, witness_data) {
        Ok(transaction) => Ok(transaction),
        Err(error) => Err(ServiceError::Build { error }),
    }
}

/// The nullifier of a spend: that of its note, at the position of its
/// inclusion proof, under the nullifier key of the spender.
pub open spec fn spec_spend_nullifier(spend: crate::action::Spend) -> Seq<u8> {
    spec_derive_nullifier(spend.nk.0@, spend.auth_path.position, spend.plan.note.spec_commit())
}

/// The first spend among `actions`.
pub open spec fn first_spend(actions: Seq<Action>) -> Option<crate::action::Spend>
    decreases actions.len(),
{
    if actions.len() == 0 {
        None
    } else {
        match actions[0] {
            Action::Spend(spend) => Some(spend),
            _ => first_spend(actions.drop_first()),
        }
    }
}

/// The nullifier whose appearance on the chain shows that `transaction` was
/// accepted: that of its first spend. `None` where the transaction spends
/// nothing, or where the caller does not wait for detection.
pub fn detection_nullifier(transaction: &Transaction, await_detection: bool) -> (nullifier: Option<
    [u8; 32],
>)
    ensures
        match first_spend(transaction.transaction_body.actions@) {
            Some(spend) => if await_detection {
                nullifier is Some && nullifier.unwrap()@ == spec_spend_nullifier(spend)
            } else {
                nullifier is None
            },
            None => nullifier is None,
        },
{
    if !await_detection {
        return None;
    }
    let n = transaction.transaction_body.actions.len();
    let ghost actions = transaction.transaction_body.actions@;
    let mut i: usize = 0;
    assert(actions.skip(0) =~= actions);
    while i < n
        invariant
            i <= n,
            n == actions.len(),
            await_detection,
            actions == transaction.transaction_body.actions@,
            first_spend(actions) == first_spend(actions.skip(i as int)),
        decreases n - i,
    {
        assert(actions.skip(i as int)[0] == actions[i as int]);
        match &transaction.transaction_body.actions[i] {
            Action::Spend(spend) => {
                let commitment = spend.plan.note.commit();
                return Some(spend.nk.derive_nullifier(spend.auth_path.position, &commitment));
            },
            _ => {},
        }
        assert(actions.skip(i as int).drop_first() =~= actions.skip(i as int + 1));
        i += 1;
    }
    None
}

/// The nullifiers of the spends among `actions`, in order.
pub open spec fn spend_nullifiers_of(actions: Seq<Action>) -> Seq<Seq<u8>>
    decreases actions.len(),
{
    if actions.len() == 0 {
        Seq::empty()
    } else {
        let before = spend_nullifiers_of(actions.drop_last());
        match actions.last() {
            Action::Spend(spend) => before.push(spec_spend_nullifier(spend)),
            _ => before,
        }
    }
}

/// Lists the nullifiers that `transaction` reveals: one for every spend, in
/// the order of the spends.
pub fn spend_nullifiers(transaction: &Transaction) -> (nullifiers: Vec<[u8; 32]>)
    ensures
        nullifiers@.len() == spend_nullifiers_of(transaction.transaction_body.actions@).len(),
        forall|i: int|
            0 <= i < nullifiers@.len() ==> (#[trigger] nullifiers@[i])@ == spend_nullifiers_of(
                transaction.transaction_body.actions@,
            )[i],
{
    let mut nullifiers: Vec<[u8; 32]> = Vec::new();
    let ghost actions = transaction.transaction_body.actions@;
    let n = transaction.transaction_body.actions.len();
    let mut i: usize = 0;
    assert(actions.take(0) =~= Seq::<Action>::empty());
    while i < n
        invariant
            i <= n,
            n == actions.len(),
            actions == transaction.transaction_body.actions@,
            nullifiers@.len() == spend_nullifiers_of(actions.take(i as int)).len(),
            forall|m: int|
                0 <= m < nullifiers@.len() ==> (#[trigger] nullifiers@[m])@ == spend_nullifiers_of(
                    actions.take(i as int),
                )[m],
        decreases n - i,
    {
        proof {
            assert(actions.take(i as int + 1).drop_last() =~= actions.take(i as int));
            assert(actions.take(i as int + 1).last() == actions[i as int]);
        }
        match &transaction.transaction_body.actions[i] {
            Action::Spend(spend) => {
                let commitment = spend.plan.note.commit();
                nullifiers.push(spend.nk.derive_nullifier(spend.auth_path.position, &commitment));
            },
            _ => {},
        }
        i += 1;
    }
    assert(actions.take(n as int) =~= actions);
    nullifiers
}

/// What a request for a plan asks for that no plan can be made of yet.
#[derive(Clone, Copy, Debug, PartialEq, Eq, Structural)]
pub enum Unimplemented {
    Swaps,
    Delegations,
    Undelegations,
}

/// Checks that a request for a plan asks for nothing but outputs: swaps are
/// refused first, then delegations, then undelegations.
pub fn check_planner_request(swaps: usize, delegations: usize, undelegations: usize) -> (r: Result<
    (),
    Unimplemented,
>)
    ensures
        r == if swaps > 0 {
            Err::<(), Unimplemented>(Unimplemented::Swaps)
        } else if delegations > 0 {
            Err::<(), Unimplemented>(Unimplemented::Delegations)
        } else if undelegations > 0 {
            Err::<(), Unimplemented>(Unimplemented::Undelegations)
        } else {
            Ok::<(), Unimplemented>(())
        },
{
    if swaps > 0 {
        Err(Unimplemented::Swaps)
    } else if delegations > 0 {
        Err(Unimplemented::Delegations)
    } else if undelegations > 0 {
        Err(Unimplemented::Undelegations)
    } else {
        Ok(())
    }
}

/// The kinds of asset that a request for assets can ask for by kind.
#[derive(Clone, Copy, Debug, PartialEq, Eq, Structural)]
pub enum AssetKind {
    DelegationToken,
    UnbondingToken,
    LpNft,
    ProposalNft,
    VotingReceiptToken,
}

/// A request for the assets that the view knows of.
#[derive(Clone, Copy, Debug, PartialEq, Eq, Structural)]
pub struct AssetsRequest {
    /// Whether only some assets are asked for. If not, all are.
    pub filtered: bool,
    pub include_delegation_tokens: bool,
    pub include_unbonding_tokens: bool,
    pub include_lp_nfts: bool,
    pub include_proposal_nfts: bool,
    pub include_voting_receipt_tokens: bool,
}

impl AssetsRequest {
    /// The kinds of asset that this request asks for by kind, in the order
    /// in which the kinds are named.
    pub open spec fn spec_kinds(self) -> Seq<AssetKind> {
        (if self.include_delegation_tokens {
            seq![AssetKind::DelegationToken]
        } else {
            Seq::empty()
        }) + (if self.include_unbonding_tokens {
            seq![AssetKind::UnbondingToken]
        } else {
            Seq::empty()
        }) + (if self.include_lp_nfts {
            seq![AssetKind::LpNft]
        } else {
            Seq::empty()
        }) + (if self.include_proposal_nfts {
            seq![AssetKind::ProposalNft]
        } else {
            Seq::empty()
        }) + (if self.include_voting_receipt_tokens {
            seq![AssetKind::VotingReceiptToken]
        } else {
            Seq::empty()
        })
    }

    /// Lists the kinds of asset to look up for this request: `None` where
    /// all assets are asked for.
    pub fn kinds(&self) -> (kinds: Option<Vec<AssetKind>>)
        ensures
            match kinds {
                Some(kinds) => self.filtered && kinds@ == self.spec_kinds(),
                None => !self.filtered,
            },
    {
        if !self.filtered {
            return None;
        }
        let mut kinds: Vec<AssetKind> = Vec::new();
        if self.include_delegation_tokens {
            kinds.push(AssetKind::DelegationToken);
        }
        if self.include_unbonding_tokens {
            kinds.push(AssetKind::UnbondingToken);
        }
        if self.include_lp_nfts {
            kinds.push(AssetKind::LpNft);
        }
        if self.include_proposal_nfts {
            kinds.push(AssetKind::ProposalNft);
        }
        if self.include_voting_receipt_tokens {
            kinds.push(AssetKind::VotingReceiptToken);
        }
        assert(kinds@ =~= self.spec_kinds());
        Some(kinds)
    }
}

} // verus!
