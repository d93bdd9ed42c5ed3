use shielded_tx::action::Action;
use shielded_tx::address::{AddressVar, AllocationMode, SynthesisError};
use shielded_tx::command::view::balance::BalanceCmd;
use shielded_tx::command::view::{
    AddressCmd, Found, Reset, ResetOutcome, StakedCmd, TransactionHashesCmd, ViewCmd,
};
use shielded_tx::command::{
    Command, DefinitionCmd, DefinitionTemplate, InitAction, InitCommands, KeysCmd, OfflineAction,
    OfflineCommands, QueryCmd, TxCmd, ValidatorCmd,
};
use shielded_tx::error::{Category, Error, Malformed};
use shielded_tx::keys::{FullViewingKey, NullifierKey};
use shielded_tx::note::{Address, Note, Value};
use shielded_tx::plan::{ActionPlan, OutputPlan, SpendPlan};
use shielded_tx::service::{
    check_fvk, detection_nullifier, dummy_commitments, parse_commitments, required_commitments,
    status, status_stream_ends, witness, witness_and_build, witness_for, ServiceError,
    StateCommitmentTree, StatusResponse,
};
use shielded_tx::settlement::{BatchSwapOutputData, TradingPair};
use shielded_tx::transaction::TransactionPlan;
use shielded_tx::wire::{
    asset_id, field_element, BatchSwapOutputDataMessage, BatchSwapOutputDataResponse,
    TradingPairMessage,
};
use shielded_tx::witness::{AuthorizationData, Proof, WitnessData};

fn fq(bytes: &[u8]) -> [u8; 32] {
    decaf377::Fq::from_le_bytes_mod_order(bytes).to_bytes()
}

fn scalar(n: u64) -> [u8; 32] {
    decaf377::Fr::from(n).to_bytes()
}

fn address(tag: u8) -> Address {
    Address {
        diversified_generator: (decaf377::Element::GENERATOR * decaf377::Fr::from(tag as u64 + 1))
            .vartime_compress()
            .0,
        transmission_key: (decaf377::Element::GENERATOR * decaf377::Fr::from(tag as u64 + 100))
            .vartime_compress()
            .0,
        clue_key: [0xff; 32],
    }
}

fn note(tag: u8, amount: u64) -> Note {
    Note {
        value: Value { amount, asset_id: fq(b"upenumbra") },
        note_blinding: fq(&[tag, 1, 2, 3]),
        address: address(tag),
    }
}

fn spend(tag: u8, amount: u64) -> SpendPlan {
    SpendPlan {
        note: note(tag, amount),
        position: tag as u64,
        randomizer: scalar(1000 + tag as u64),
        value_blinding: scalar(10 + tag as u64),
    }
}

fn output(tag: u8) -> ActionPlan {
    ActionPlan::Output(OutputPlan {
        value: Value { amount: tag as u64, asset_id: fq(b"upenumbra") },
        dest_address: address(tag),
        note_blinding: fq(&[tag, 9]),
        value_blinding: scalar(20 + tag as u64),
        esk: scalar(30 + tag as u64),
    })
}

fn fvk() -> FullViewingKey {
    FullViewingKey::from_components(
        (decaf377::Element::GENERATOR * decaf377::Fr::from(4242u64)).vartime_compress().0,
        NullifierKey(fq(b"nk")),
    )
}

fn plan(actions: Vec<ActionPlan>) -> TransactionPlan {
    TransactionPlan {
        actions,
        expiry_height: 0,
        valid_after: None,
        valid_before: None,
        chain_id: String::from("chain"),
        fee: Value { amount: 0, asset_id: fq(b"upenumbra") },
        clue_plans: vec![],
        memo_plan: None,
    }
}

fn inclusion(commitment: [u8; 32], position: u64) -> Proof {
    Proof { commitment, position, auth_path: [[1u8; 32]; 72] }
}

fn tree(commitments: &[[u8; 32]]) -> StateCommitmentTree {
    StateCommitmentTree {
        root: [0xcc; 32],
        proofs: commitments.iter().enumerate().map(|(i, c)| inclusion(*c, i as u64)).collect(),
    }
}

fn batch() -> BatchSwapOutputData {
    BatchSwapOutputData {
        delta_1: 1,
        delta_2: 2,
        lambda_1: 3,
        lambda_2: 4,
        height: 5,
        trading_pair: TradingPair { asset_1: fq(b"a"), asset_2: fq(b"b") },
        success: true,
    }
}

#[test]
fn status_says_when_the_client_is_caught_up() {
    let ok = |sync_height, catching_up| Ok(StatusResponse { sync_height, catching_up });
    assert_eq!(status(Some(10), 10, false), ok(10, false));
    assert_eq!(status(Some(9), 10, false), ok(9, false));
    assert_eq!(status(Some(8), 10, false), ok(8, true));
    assert_eq!(status(Some(10), 10, true), ok(10, true));
    assert_eq!(status(Some(0), u64::MAX, false), ok(0, true));
    assert_eq!(status(None, 1, false), ok(0, false));
    assert_eq!(status(None, 2, false), ok(0, true));
    assert_eq!(status(Some(11), 10, false), Err(ServiceError::SyncHeightAhead));
    assert!(status_stream_ends(10, 10));
    assert!(status_stream_ends(11, 10));
    assert!(!status_stream_ends(9, 10));
}

#[test]
fn check_fvk_accepts_the_served_account_only() {
    assert_eq!(check_fvk(&[1u8; 32], Some(&[1u8; 32])), Ok(()));
    assert_eq!(check_fvk(&[1u8; 32], Some(&[2u8; 32])), Err(ServiceError::InvalidAccountId));
    assert_eq!(check_fvk(&[1u8; 32], None), Err(ServiceError::MissingAccountId));
}

#[test]
fn required_commitments_leave_out_dummy_spends() {
    let plan = plan(vec![
        output(1),
        ActionPlan::Spend(spend(1, 5)),
        ActionPlan::Spend(spend(2, 0)),
        ActionPlan::Spend(spend(3, 7)),
    ]);
    assert_eq!(
        required_commitments(&plan),
        vec![spend(1, 5).note.commit(), spend(3, 7).note.commit()]
    );
    assert_eq!(dummy_commitments(&plan), vec![spend(2, 0).note.commit()]);
}

#[test]
fn witness_takes_proofs_under_one_root_and_makes_up_dummy_proofs() {
    let plan = plan(vec![ActionPlan::Spend(spend(1, 5)), ActionPlan::Spend(spend(2, 0))]);
    let real = spend(1, 5).note.commit();
    let dummy = spend(2, 0).note.commit();
    let tree = tree(&[[9u8; 32], real]);
    let data = witness_for(&tree, &vec![real], &plan).unwrap();
    assert_eq!(data.anchor, [0xcc; 32]);
    assert_eq!(data.get(&real), Some(inclusion(real, 1)));
    assert_eq!(data.get(&[9u8; 32]), None);
    let made_up = data.get(&dummy).unwrap();
    assert_eq!(made_up.commitment, dummy);
    assert_eq!(tree.witness(&dummy), None);
    assert_eq!(tree.root(), [0xcc; 32]);
    // A dummy proof is made up afresh each time.
    let again = witness_for(&tree, &vec![real], &plan).unwrap();
    assert_ne!(again.get(&dummy), Some(made_up));
}

#[test]
fn dummy_proofs_are_random() {
    let a = Proof::dummy([5u8; 32]).unwrap();
    let b = Proof::dummy([5u8; 32]).unwrap();
    assert_eq!(a.commitment(), [5u8; 32]);
    assert_ne!(a.auth_path, b.auth_path);
    assert_ne!(a.auth_path[0], a.auth_path[1]);
    for sibling in a.auth_path.iter() {
        assert!(decaf377::Fq::from_bytes_checked(sibling).is_ok());
    }
}

#[test]
fn witness_fails_on_unknown_and_malformed_commitments() {
    let plan = plan(vec![]);
    let tree = tree(&[fq(b"one")]);
    assert_eq!(
        witness_for(&tree, &vec![fq(b"one"), fq(b"two"), fq(b"three")], &plan),
        Err(ServiceError::UnknownCommitment { commitment: fq(b"two") })
    );
    assert_eq!(
        witness(&tree, &vec![fq(b"one").to_vec(), vec![1, 2, 3]], &plan),
        Err(ServiceError::MalformedCommitment)
    );
    assert_eq!(
        witness(&tree, &vec![vec![0xff; 32], fq(b"two").to_vec()], &plan),
        Err(ServiceError::MalformedCommitment)
    );
    assert_eq!(
        witness(&tree, &vec![fq(b"two").to_vec()], &plan),
        Err(ServiceError::UnknownCommitment { commitment: fq(b"two") })
    );
    let data = witness(&tree, &vec![fq(b"one").to_vec()], &plan).unwrap();
    assert_eq!(data.state_commitment_proofs, vec![inclusion(fq(b"one"), 0)]);
    assert_eq!(parse_commitments(&vec![]), Some(vec![]));
    assert_eq!(parse_commitments(&vec![fq(b"x").to_vec()]), Some(vec![fq(b"x")]));
}

#[test]
fn add_proof_replaces_the_proof_for_its_commitment() {
    let mut data = WitnessData { anchor: [1u8; 32], state_commitment_proofs: vec![] };
    data.add_proof(inclusion([1u8; 32], 1));
    data.add_proof(inclusion([2u8; 32], 2));
    data.add_proof(inclusion([1u8; 32], 3));
    assert_eq!(data.state_commitment_proofs.len(), 2);
    assert_eq!(data.get(&[1u8; 32]), Some(inclusion([1u8; 32], 3)));
    assert_eq!(data.get(&[2u8; 32]), Some(inclusion([2u8; 32], 2)));
    assert_eq!(data.get(&[3u8; 32]), None);
    assert_eq!(data.anchor, [1u8; 32]);
}

#[test]
fn witness_and_build_builds_with_dummy_spends() {
    let plan = plan(vec![
        ActionPlan::Spend(spend(2, 0)),
        output(1),
        ActionPlan::Spend(spend(1, 5)),
    ]);
    let tree = tree(&[spend(1, 5).note.commit()]);
    let auth = AuthorizationData {
        spend_auths: vec![[1u8; 64], [2u8; 64]],
        delegator_vote_auths: vec![],
    };
    let tx = witness_and_build(&tree, plan.clone(), auth.clone(), &fvk(), &[1u8; 32]).unwrap();
    assert_eq!(tx.anchor, [0xcc; 32]);
    assert_eq!(tx.transaction_body.actions.len(), 3);
    assert!(tx.verify_binding_sig());
    match &tx.transaction_body.actions[1] {
        Action::Spend(s) => assert_eq!(s.auth_path, inclusion(spend(1, 5).note.commit(), 0)),
        other => panic!("unexpected {:?}", other),
    }
    let empty = StateCommitmentTree { root: [0u8; 32], proofs: vec![] };
    assert_eq!(
        witness_and_build(&empty, plan.clone(), auth, &fvk(), &[1u8; 32]),
        Err(ServiceError::UnknownCommitment { commitment: spend(1, 5).note.commit() })
    );
    let short = AuthorizationData { spend_auths: vec![[1u8; 64]], delegator_vote_auths: vec![] };
    assert_eq!(
        witness_and_build(&tree, plan, short, &fvk(), &[1u8; 32]),
        Err(ServiceError::Build {
            error: Error::InputMismatch { category: Category::Spend, expected: 2, found: 1 }
        })
    );
}

#[test]
fn detection_waits_for_the_nullifier_of_the_first_spend() {
    let plan = plan(vec![output(1), ActionPlan::Spend(spend(1, 5)), ActionPlan::Spend(spend(3, 6))]);
    let tree = tree(&[spend(3, 6).note.commit(), spend(1, 5).note.commit()]);
    let auth = AuthorizationData {
        spend_auths: vec![[1u8; 64], [2u8; 64]],
        delegator_vote_auths: vec![],
    };
    let tx = witness_and_build(&tree, plan, auth, &fvk(), &[1u8; 32]).unwrap();
    let expected = fvk().nk.derive_nullifier(1, &spend(1, 5).note.commit());
    assert_eq!(detection_nullifier(&tx, true), Some(expected));
    assert_eq!(detection_nullifier(&tx, false), None);
    let no_spend = witness_and_build(
        &tree,
        self::plan(vec![output(1)]),
        AuthorizationData { spend_auths: vec![], delegator_vote_auths: vec![] },
        &fvk(),
        &[1u8; 32],
    )
    .unwrap();
    assert_eq!(detection_nullifier(&no_spend, true), None);
}

#[test]
fn batch_swap_output_data_round_trips_through_its_message() {
    let message = batch().to_message();
    assert_eq!(message.delta_1, 1);
    assert_eq!(message.lambda_2, 4);
    assert_eq!(message.height, 5);
    assert!(message.success);
    assert_eq!(
        message.trading_pair,
        Some(TradingPairMessage {
            asset_1: Some(fq(b"a").to_vec()),
            asset_2: Some(fq(b"b").to_vec())
        })
    );
    assert_eq!(BatchSwapOutputData::try_from(message), Ok(batch()));
    assert_eq!(BatchSwapOutputData::try_from_response(batch().to_response()), Ok(batch()));
}

#[test]
fn malformed_batch_swap_messages_are_refused() {
    let malformed = |what| Err(Error::MalformedInput { what });
    let mut message = batch().to_message();
    message.trading_pair = None;
    assert_eq!(BatchSwapOutputData::try_from(message), malformed(Malformed::MissingTradingPair));
    let mut message = batch().to_message();
    message.trading_pair.as_mut().unwrap().asset_2 = None;
    assert_eq!(BatchSwapOutputData::try_from(message), malformed(Malformed::AssetId));
    let mut message = batch().to_message();
    message.trading_pair.as_mut().unwrap().asset_1 = Some(vec![0xff; 32]);
    assert_eq!(BatchSwapOutputData::try_from(message), malformed(Malformed::AssetId));
    let mut message = batch().to_message();
    message.trading_pair.as_mut().unwrap().asset_1 = Some(vec![1; 31]);
    assert_eq!(BatchSwapOutputData::try_from(message), malformed(Malformed::AssetId));
    assert_eq!(
        BatchSwapOutputData::try_from_response(BatchSwapOutputDataResponse { data: None }),
        malformed(Malformed::EmptyResponse)
    );
    let _: BatchSwapOutputDataMessage = batch().to_message();
}

#[test]
fn field_elements_are_read_in_canonical_form_only() {
    assert_eq!(field_element(&vec![0u8; 32]), Some([0u8; 32]));
    assert_eq!(field_element(&vec![0xffu8; 32]), None);
    assert_eq!(field_element(&vec![0u8; 33]), None);
    // The modulus itself is not canonical; the number below it is.
    let minus_one = (-decaf377::Fq::from(1u64)).to_bytes();
    assert_eq!(field_element(&minus_one.to_vec()), Some(minus_one));
    let mut modulus = minus_one;
    modulus[0] += 1;
    assert_eq!(field_element(&modulus.to_vec()), None);
    assert_eq!(asset_id(&None), None);
    assert_eq!(asset_id(&Some(fq(b"a").to_vec())), Some(fq(b"a")));
}

#[test]
fn address_enters_a_proof_as_a_witness() {
    let address = address(3);
    let assigned = AddressVar::new_variable(&address, AllocationMode::Witness).unwrap();
    assert_eq!(assigned.diversified_generator(), address.diversified_generator);
    assert_eq!(assigned.transmission_key(), address.transmission_key);
    assert_eq!(
        assigned.clue_key(),
        decaf377::Fq::from_le_bytes_mod_order(&[0xff; 32]).to_bytes()
    );
    assert_ne!(assigned.clue_key(), address.clue_key);
    let mut broken = address;
    broken.transmission_key = [0xff; 32];
    assert_eq!(
        AddressVar::new_variable(&broken, AllocationMode::Witness),
        Err(SynthesisError::AssignmentMissing)
    );
}

#[test]
fn commands_say_whether_they_need_a_synchronized_view() {
    let view = |cmd| Command::View(cmd);
    assert!(view(ViewCmd::Reset(Reset {})).offline());
    assert!(!view(ViewCmd::Sync).offline());
    assert!(!view(ViewCmd::Balance(BalanceCmd { by_address: true, by_note: false })).offline());
    assert!(view(ViewCmd::Address(AddressCmd { offline: true })).offline());
    assert!(!view(ViewCmd::Staked(StakedCmd { offline: false })).offline());
    assert!(!view(ViewCmd::ListTransactionHashes(TransactionHashesCmd { offline: false })).offline());
    assert!(!view(ViewCmd::Tx(shielded_tx::command::view::TxCmd { offline: false })).offline());
    assert!(!Command::Query(QueryCmd {}).offline());
    assert!(Command::Keys(KeysCmd { offline: true }).offline());
    assert!(!Command::Transaction(TxCmd { offline: false }).offline());
    assert!(Command::Transaction(TxCmd { offline: true }).offline());
    assert!(Command::Validator(ValidatorCmd::Identity).offline());
    assert!(Command::Validator(ValidatorCmd::Definition(DefinitionCmd::Template { file: None }))
        .offline());
    assert!(!Command::Validator(ValidatorCmd::Definition(DefinitionCmd::Upload {
        file: String::from("validator.json")
    }))
    .offline());
    assert!(!BalanceCmd { by_address: false, by_note: true }.offline());
}

#[test]
fn early_commands_are_dispatched_on_the_data_directory() {
    let keys = InitCommands::Keys(KeysCmd { offline: true });
    assert_eq!(keys.action(), InitAction::Keys(KeysCmd { offline: true }));
    assert_eq!(keys.checked_action(), Some(InitAction::Keys(KeysCmd { offline: true })));
    let reset = InitCommands::View(ViewCmd::Reset(Reset {}));
    assert_eq!(reset.action(), InitAction::ResetView);
    assert_eq!(reset.checked_action(), Some(InitAction::ResetView));
    assert_eq!(InitCommands::View(ViewCmd::Sync).checked_action(), None);
    assert_eq!(Reset {}.decide(Found::File), ResetOutcome::Delete);
    assert_eq!(Reset {}.decide(Found::Other), ResetOutcome::RefuseNotAFile);
    assert_eq!(Reset {}.decide(Found::Nothing), ResetOutcome::RefuseMissing);
}

#[test]
fn offline_commands_are_dispatched_on_the_keys() {
    let address = AddressCmd { offline: true };
    assert_eq!(
        OfflineCommands::View(ViewCmd::Address(address)).action(),
        Some(OfflineAction::ShowAddress(address))
    );
    assert_eq!(OfflineCommands::View(ViewCmd::Sync).action(), None);
    assert_eq!(
        OfflineCommands::Validator(ValidatorCmd::Identity).action(),
        Some(OfflineAction::ShowIdentity)
    );
    let file = Some(String::from("validator.json"));
    assert_eq!(
        OfflineCommands::Validator(ValidatorCmd::Definition(DefinitionCmd::Template {
            file: file.clone()
        }))
        .action(),
        Some(OfflineAction::WriteTemplate { file: file.clone() })
    );
    assert_eq!(
        OfflineCommands::Validator(ValidatorCmd::Definition(DefinitionCmd::Fetch { file: None }))
            .action(),
        Some(OfflineAction::FetchDefinition { file: None })
    );
    assert_eq!(
        OfflineCommands::Validator(ValidatorCmd::Definition(DefinitionCmd::Upload {
            file: String::from("validator.json")
        }))
        .action(),
        None
    );
    let template = DefinitionTemplate::new();
    assert!(!template.enabled);
    assert_eq!(template.funding_rate_bps, 100);
    assert_eq!(template.sequence_number, 0);
    assert_eq!(template.name, "");
    assert_eq!(template.website, "");
    assert_eq!(template.description, "");
}

#[test]
fn every_spend_reveals_its_nullifier() {
    let plan = plan(vec![
        ActionPlan::Spend(spend(3, 6)),
        output(1),
        ActionPlan::Spend(spend(1, 5)),
    ]);
    let tree = tree(&[spend(3, 6).note.commit(), spend(1, 5).note.commit()]);
    let auth = AuthorizationData {
        spend_auths: vec![[1u8; 64], [2u8; 64]],
        delegator_vote_auths: vec![],
    };
    let tx = witness_and_build(&tree, plan, auth, &fvk(), &[1u8; 32]).unwrap();
    assert_eq!(
        shielded_tx::service::spend_nullifiers(&tx),
        vec![
            fvk().nk.derive_nullifier(0, &spend(3, 6).note.commit()),
            fvk().nk.derive_nullifier(1, &spend(1, 5).note.commit()),
        ]
    );
}

#[test]
fn dummy_proof_is_made_of_the_bytes_that_were_drawn() {
    let mut seed = [0u8; 32];
    seed[..10].copy_from_slice(&[1, 2, 3, 4, 5, 6, 7, 8, 9, 10]);
    let mut siblings = [[0u8; 32]; 72];
    siblings[0] = [0xff; 32];
    siblings[1] = fq(b"sibling");
    siblings[71][0] = 7;
    let made = Proof::from_randomness([5u8; 32], &seed, &siblings);
    assert_eq!(made.commitment, [5u8; 32]);
    // The first eight bytes of the seed, most significant first.
    assert_eq!(made.position, 0x0102_0304_0506_0708);
    // Bytes that are no field element are reduced; a field element stays.
    assert_eq!(
        made.auth_path[0],
        decaf377::Fq::from_le_bytes_mod_order(&[0xff; 32]).to_bytes()
    );
    assert_ne!(made.auth_path[0], siblings[0]);
    assert_eq!(made.auth_path[1], siblings[1]);
    assert_eq!(made.auth_path[2], [0u8; 32]);
    assert_eq!(made.auth_path[71], siblings[71]);
    assert_eq!(made, Proof::from_randomness([5u8; 32], &seed, &siblings));
    assert_eq!(Proof::from_randomness([5u8; 32], &[0xff; 32], &siblings).position, u64::MAX);
}
