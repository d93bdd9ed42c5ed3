use shielded_tx::action::Action;
use shielded_tx::concurrent::{
    gather, lookup, make_cheap_action, make_unit, scatter, UnitInput, UnitKey, UnitOutput,
    UnitResult, WorkUnit,
};
use shielded_tx::error::{Category, Error};
use shielded_tx::keys::{FullViewingKey, NullifierKey};
use shielded_tx::note::{Address, Note, Value};
use shielded_tx::order::count_category;
use shielded_tx::plan::{
    ActionPlan, DelegatorVotePlan, OutputPlan, PublicAction, SpendPlan, SwapClaimPlan,
    SwapPlaintext, SwapPlan, UndelegateClaimPlan,
};
use shielded_tx::settlement::{BatchSwapOutputData, TradingPair};
use shielded_tx::transaction::{MemoPlan, TransactionPlan};
use shielded_tx::witness::{AuthorizationData, Proof, WitnessData};

fn fq(bytes: &[u8]) -> [u8; 32] {
    decaf377::Fq::from_le_bytes_mod_order(bytes).to_bytes()
}

fn scalar(n: u64) -> [u8; 32] {
    decaf377::Fr::from(n).to_bytes()
}

fn address(tag: u8) -> Address {
    Address {
        diversified_generator: (decaf377::Element::GENERATOR * decaf377::Fr::from(tag as u64 + 1))
            .vartime_compress()
            .0,
        transmission_key: (decaf377::Element::GENERATOR * decaf377::Fr::from(tag as u64 + 100))
            .vartime_compress()
            .0,
        clue_key: [tag; 32],
    }
}

fn note(tag: u8, amount: u64) -> Note {
    Note {
        value: Value { amount, asset_id: fq(b"upenumbra") },
        note_blinding: fq(&[tag, 1, 2, 3]),
        address: address(tag),
    }
}

fn spend(tag: u8) -> ActionPlan {
    ActionPlan::Spend(SpendPlan {
        note: note(tag, 10 + tag as u64),
        position: tag as u64,
        randomizer: scalar(1000 + tag as u64),
        value_blinding: scalar(10 + tag as u64),
    })
}

fn output(tag: u8) -> ActionPlan {
    ActionPlan::Output(OutputPlan {
        value: Value { amount: tag as u64, asset_id: fq(b"upenumbra") },
        dest_address: address(tag),
        note_blinding: fq(&[tag, 9]),
        value_blinding: scalar(20 + tag as u64),
        esk: scalar(30 + tag as u64),
    })
}

fn plaintext(tag: u8) -> SwapPlaintext {
    SwapPlaintext {
        trading_pair: TradingPair { asset_1: fq(b"a"), asset_2: fq(b"b") },
        delta_1_i: 3,
        delta_2_i: 4,
        claim_fee: Value { amount: 1, asset_id: fq(b"upenumbra") },
        claim_address: address(tag),
        rseed: [tag; 32],
    }
}

fn swap(tag: u8) -> ActionPlan {
    ActionPlan::Swap(SwapPlan { swap_plaintext: plaintext(tag), fee_blinding: scalar(40 + tag as u64) })
}

fn swap_claim(tag: u8) -> ActionPlan {
    ActionPlan::SwapClaim(SwapClaimPlan {
        swap_plaintext: plaintext(tag),
        position: 5,
        output_data: BatchSwapOutputData {
            delta_1: 30,
            delta_2: 40,
            lambda_1: 400,
            lambda_2: 300,
            height: 3,
            trading_pair: TradingPair { asset_1: fq(b"a"), asset_2: fq(b"b") },
            success: false,
        },
        epoch_duration: 10,
    })
}

fn vote(tag: u8) -> ActionPlan {
    ActionPlan::DelegatorVote(DelegatorVotePlan {
        proposal: 1,
        start_position: 2,
        vote: 0,
        staked_note: note(200 + tag, 50),
        position: 8,
        unbonded_amount: 50,
        randomizer: scalar(60 + tag as u64),
    })
}

fn undelegate_claim(tag: u8) -> ActionPlan {
    ActionPlan::UndelegateClaim(UndelegateClaimPlan {
        validator_identity: [tag; 32],
        start_epoch_index: 4,
        unbonding_amount: 9,
        penalty: 1,
        balance_blinding: scalar(70 + tag as u64),
    })
}

fn public(tag: u8) -> PublicAction {
    PublicAction { payload: vec![tag; 5] }
}

fn fvk() -> FullViewingKey {
    FullViewingKey::from_components(
        (decaf377::Element::GENERATOR * decaf377::Fr::from(4242u64)).vartime_compress().0,
        NullifierKey(fq(b"nk")),
    )
}

fn plan() -> TransactionPlan {
    TransactionPlan {
        actions: vec![
            ActionPlan::ProposalSubmit(public(1)),
            vote(1),
            output(1),
            spend(1),
            swap_claim(1),
            undelegate_claim(1),
            swap(1),
            spend(2),
            vote(2),
            ActionPlan::DaoOutput(public(2)),
            output(2),
        ],
        expiry_height: 0,
        valid_after: Some(5),
        valid_before: None,
        chain_id: String::from("chain"),
        fee: Value { amount: 0, asset_id: fq(b"upenumbra") },
        clue_plans: vec![],
        memo_plan: Some(MemoPlan { plaintext: b"memo".to_vec(), key: [3u8; 32] }),
    }
}

fn witness(plan: &TransactionPlan) -> WitnessData {
    let mut proofs = Vec::new();
    for (i, action) in plan.actions.iter().enumerate() {
        if let Some(commitment) = action.commitment() {
            proofs.push(Proof { commitment, position: i as u64, auth_path: [[i as u8; 32]; 72] });
        }
    }
    WitnessData { anchor: [0xbb; 32], state_commitment_proofs: proofs }
}

fn auth(plan: &TransactionPlan) -> AuthorizationData {
    AuthorizationData {
        spend_auths: (0..count_category(&plan.actions, Category::Spend))
            .map(|i| [i as u8 + 1; 64])
            .collect(),
        delegator_vote_auths: (0..count_category(&plan.actions, Category::DelegatorVote))
            .map(|i| [i as u8 + 101; 64])
            .collect(),
    }
}

fn units() -> Vec<WorkUnit> {
    scatter(&plan(), &fvk(), &auth(&plan()), &witness(&plan())).unwrap()
}

fn key(category: Category, index: usize) -> UnitKey {
    UnitKey { category, index }
}

#[test]
fn sequential_and_concurrent_builds_agree() {
    let sequential =
        plan().build(&[9u8; 32], &fvk(), auth(&plan()), witness(&plan())).unwrap();
    let concurrent =
        plan().build_concurrent(&[9u8; 32], &fvk(), auth(&plan()), witness(&plan())).unwrap();
    assert_eq!(sequential.transaction_body.actions, concurrent.transaction_body.actions);
    assert_eq!(sequential, concurrent);
    assert!(concurrent.verify_binding_sig());
    assert_eq!(concurrent.transaction_body.actions.len(), 11);
}

#[test]
fn concurrent_build_fails_as_the_sequential_build_fails() {
    let no_auth = AuthorizationData { spend_auths: vec![], delegator_vote_auths: vec![] };
    assert_eq!(
        plan().build_concurrent(&[9u8; 32], &fvk(), no_auth.clone(), witness(&plan())),
        plan().build(&[9u8; 32], &fvk(), no_auth, witness(&plan()))
    );
    let mut fewer = witness(&plan());
    fewer.state_commitment_proofs.remove(2);
    let expected = plan().build(&[9u8; 32], &fvk(), auth(&plan()), fewer.clone());
    assert!(matches!(expected, Err(Error::MissingProof { .. })));
    assert_eq!(plan().build_concurrent(&[9u8; 32], &fvk(), auth(&plan()), fewer), expected);
    let empty = WitnessData { anchor: [0u8; 32], state_commitment_proofs: vec![] };
    assert_eq!(
        scatter(&plan(), &fvk(), &auth(&plan()), &empty),
        Err(Error::MissingProof { commitment: spend(1).commitment().unwrap() })
    );
}

#[test]
fn scatter_hands_out_the_costly_actions_in_canonical_order() {
    let keys: Vec<UnitKey> = units().iter().map(|u| u.key).collect();
    assert_eq!(
        keys,
        vec![
            key(Category::Spend, 0),
            key(Category::Spend, 1),
            key(Category::Output, 0),
            key(Category::Output, 1),
            key(Category::Swap, 0),
            key(Category::SwapClaim, 0),
            key(Category::DelegatorVote, 0),
            key(Category::DelegatorVote, 1),
        ]
    );
}

#[test]
fn each_unit_is_given_what_its_action_needs() {
    let units = units();
    let witness = witness(&plan());
    match units[1].input {
        UnitInput::Spend { plan, fvk: key, auth_sig, auth_path } => {
            assert_eq!(ActionPlan::Spend(plan), spend(2));
            assert_eq!(key, fvk());
            assert_eq!(auth_sig, [2u8; 64]);
            assert_eq!(Some(auth_path), witness.get(&plan.note.commit()));
        }
        other => panic!("unexpected {:?}", other),
    }
    match units[2].input {
        UnitInput::Output { plan, ovk, memo_key } => {
            assert_eq!(ActionPlan::Output(plan), output(1));
            assert_eq!(ovk, fvk().outgoing());
            assert_eq!(memo_key, [3u8; 32]);
        }
        other => panic!("unexpected {:?}", other),
    }
    match units[7].input {
        UnitInput::DelegatorVote { auth_sig, .. } => assert_eq!(auth_sig, [102u8; 64]),
        other => panic!("unexpected {:?}", other),
    }
}

#[test]
fn units_make_the_actions_of_the_sequential_build() {
    let sequential =
        plan().build(&[9u8; 32], &fvk(), auth(&plan()), witness(&plan())).unwrap();
    let units = units();
    assert_eq!(units[0].run().into_action(), sequential.transaction_body.actions[0]);
    assert_eq!(units[4].run().into_action(), sequential.transaction_body.actions[4]);
    assert_eq!(units[5].run().category(), Category::SwapClaim);
    match units[5].run() {
        UnitOutput::SwapClaim(claim) => assert_eq!((claim.lambda_1_i, claim.lambda_2_i), (3, 4)),
        other => panic!("unexpected {:?}", other),
    }
    assert_eq!(units[3].complete(), UnitResult { key: units[3].key, outcome: Some(units[3].run()) });
    assert_eq!(units[3].fail(), UnitResult { key: units[3].key, outcome: None });
}

#[test]
fn gather_restores_canonical_order_whatever_the_order_of_arrival() {
    let sequential =
        plan().build(&[9u8; 32], &fvk(), auth(&plan()), witness(&plan())).unwrap();
    let mut results: Vec<UnitResult> = units().iter().map(|u| u.complete()).collect();
    results.reverse();
    assert_eq!(gather(&plan(), &results), Ok(sequential.transaction_body.actions.clone()));
    results.swap(0, 5);
    results.swap(2, 7);
    results.rotate_left(3);
    assert_eq!(gather(&plan(), &results), Ok(sequential.transaction_body.actions));
}

#[test]
fn gather_fails_where_a_unit_has_failed() {
    let units = units();
    let mut results: Vec<UnitResult> = units.iter().map(|u| u.complete()).collect();
    results[3] = units[3].fail();
    assert_eq!(
        gather(&plan(), &results),
        Err(Error::ConcurrencyFailure { category: Category::Output, index: 1 })
    );
    // The first failure in canonical order is the one that is named.
    results[7] = units[7].fail();
    results[1] = units[1].fail();
    results.reverse();
    assert_eq!(
        gather(&plan(), &results),
        Err(Error::ConcurrencyFailure { category: Category::Spend, index: 1 })
    );
}

#[test]
fn gather_fails_where_a_result_is_missing_or_of_the_wrong_kind() {
    let units = units();
    let mut results: Vec<UnitResult> = units.iter().map(|u| u.complete()).collect();
    let removed = results.remove(5);
    assert_eq!(removed.key, key(Category::SwapClaim, 0));
    assert_eq!(
        gather(&plan(), &results),
        Err(Error::ConcurrencyFailure { category: Category::SwapClaim, index: 0 })
    );
    assert_eq!(
        gather(&plan(), &vec![]),
        Err(Error::ConcurrencyFailure { category: Category::Spend, index: 0 })
    );
    let mut wrong: Vec<UnitResult> = units.iter().map(|u| u.complete()).collect();
    wrong[4].outcome = Some(units[0].run());
    assert_eq!(
        gather(&plan(), &wrong),
        Err(Error::ConcurrencyFailure { category: Category::Swap, index: 0 })
    );
}

#[test]
fn gather_takes_the_first_result_under_a_key() {
    let units = units();
    let mut results = vec![units[0].fail()];
    results.extend(units.iter().map(|u| u.complete()));
    assert_eq!(lookup(&results, units[0].key), Some(units[0].fail()));
    assert_eq!(lookup(&results, key(Category::Spend, 9)), None);
    assert_eq!(
        gather(&plan(), &results),
        Err(Error::ConcurrencyFailure { category: Category::Spend, index: 0 })
    );
}

#[test]
fn plan_without_costly_actions_needs_no_units() {
    let mut cheap = plan();
    cheap.actions = vec![ActionPlan::DaoOutput(public(2)), undelegate_claim(3)];
    assert_eq!(scatter(&cheap, &fvk(), &auth(&cheap), &witness(&cheap)), Ok(vec![]));
    let actions = gather(&cheap, &vec![]).unwrap();
    assert_eq!(actions.len(), 2);
    assert_eq!(actions[0].category(), Category::UndelegateClaim);
    assert_eq!(actions[1], Action::DaoOutput(public(2)));
}

#[test]
fn cheap_actions_are_made_on_the_spot() {
    assert_eq!(
        make_cheap_action(&ActionPlan::Undelegate(public(7))),
        Some(Action::Undelegate(public(7)))
    );
    assert!(matches!(
        make_cheap_action(&undelegate_claim(1)),
        Some(Action::UndelegateClaim(_))
    ));
    assert_eq!(make_cheap_action(&spend(1)), None);
    assert_eq!(make_cheap_action(&output(1)), None);
    assert_eq!(make_cheap_action(&swap(1)), None);
    assert_eq!(make_cheap_action(&swap_claim(1)), None);
    assert_eq!(make_cheap_action(&vote(1)), None);
    assert!(Category::Spend.is_costly());
    assert!(!Category::UndelegateClaim.is_costly());
    assert!(!Category::DaoSpend.is_costly());
}

#[test]
fn make_unit_gives_no_unit_for_a_cheap_action() {
    let plan = plan();
    let made = make_unit(
        &undelegate_claim(1),
        0,
        &fvk(),
        &fvk().outgoing(),
        &[0u8; 32],
        &auth(&plan),
        &witness(&plan),
    );
    assert_eq!(made, Ok(None));
    let unit = make_unit(
        &swap(1),
        4,
        &fvk(),
        &fvk().outgoing(),
        &[0u8; 32],
        &auth(&plan),
        &witness(&plan),
    )
    .unwrap()
    .unwrap();
    assert_eq!(unit.key, key(Category::Swap, 4));
    match unit.run() {
        UnitOutput::Swap(made) => assert_eq!(made.ovk, fvk().outgoing()),
        other => panic!("unexpected {:?}", other),
    }
}
