use chacha20poly1305::aead::{Aead, KeyInit};
use shielded_tx::action::Action;
use shielded_tx::blinding::BlindingAccumulator;
use shielded_tx::builder::{assemble, encrypt_memo, make_clues, payload_key, sign};
use shielded_tx::error::{Category, Error};
use shielded_tx::keys::{FullViewingKey, NullifierKey};
use shielded_tx::note::{Address, Note, Value};
use shielded_tx::order::count_category;
use shielded_tx::plan::{
    ActionPlan, DelegatorVotePlan, OutputPlan, PublicAction, SpendPlan, SwapClaimPlan,
    SwapPlaintext, SwapPlan, UndelegateClaimPlan,
};
use shielded_tx::settlement::{BatchSwapOutputData, TradingPair};
use shielded_tx::transaction::{
    hash_action, CluePlan, MemoPlan, Transaction, TransactionBody, TransactionPlan,
    MEMO_CIPHERTEXT_LEN_BYTES,
};
use shielded_tx::witness::{AuthorizationData, Proof, WitnessData};

fn fq(bytes: &[u8]) -> [u8; 32] {
    decaf377::Fq::from_le_bytes_mod_order(bytes).to_bytes()
}

fn scalar(n: u64) -> [u8; 32] {
    decaf377::Fr::from(n).to_bytes()
}

fn address(tag: u8) -> Address {
    Address {
        diversified_generator: (decaf377::Element::GENERATOR * decaf377::Fr::from(tag as u64 + 1))
            .vartime_compress()
            .0,
        transmission_key: (decaf377::Element::GENERATOR * decaf377::Fr::from(tag as u64 + 100))
            .vartime_compress()
            .0,
        clue_key: [tag; 32],
    }
}

fn note(tag: u8, amount: u64) -> Note {
    Note {
        value: Value { amount, asset_id: fq(b"upenumbra") },
        note_blinding: fq(&[tag, 1, 2, 3]),
        address: address(tag),
    }
}

fn spend(tag: u8, amount: u64) -> SpendPlan {
    SpendPlan {
        note: note(tag, amount),
        position: tag as u64,
        randomizer: scalar(1000 + tag as u64),
        value_blinding: scalar(10 + tag as u64),
    }
}

fn output(tag: u8, amount: u64) -> OutputPlan {
    OutputPlan {
        value: Value { amount, asset_id: fq(b"upenumbra") },
        dest_address: address(tag),
        note_blinding: fq(&[tag, 9]),
        value_blinding: scalar(20 + tag as u64),
        esk: scalar(30 + tag as u64),
    }
}

fn plaintext(tag: u8) -> SwapPlaintext {
    SwapPlaintext {
        trading_pair: TradingPair { asset_1: fq(b"a"), asset_2: fq(b"b") },
        delta_1_i: 10,
        delta_2_i: 0,
        claim_fee: Value { amount: 1, asset_id: fq(b"upenumbra") },
        claim_address: address(tag),
        rseed: [tag; 32],
    }
}

fn swap(tag: u8) -> SwapPlan {
    SwapPlan { swap_plaintext: plaintext(tag), fee_blinding: scalar(40 + tag as u64) }
}

fn swap_claim(tag: u8) -> SwapClaimPlan {
    SwapClaimPlan {
        swap_plaintext: plaintext(tag),
        position: 5,
        output_data: BatchSwapOutputData {
            delta_1: 100,
            delta_2: 0,
            lambda_1: 0,
            lambda_2: 200,
            height: 3,
            trading_pair: TradingPair { asset_1: fq(b"a"), asset_2: fq(b"b") },
            success: true,
        },
        epoch_duration: 10,
    }
}

fn vote(tag: u8) -> DelegatorVotePlan {
    DelegatorVotePlan {
        proposal: 1,
        start_position: 2,
        vote: 1,
        staked_note: note(200 + tag, 50),
        position: 8,
        unbonded_amount: 50,
        randomizer: scalar(60 + tag as u64),
    }
}

fn undelegate_claim(tag: u8) -> UndelegateClaimPlan {
    UndelegateClaimPlan {
        validator_identity: [tag; 32],
        start_epoch_index: 4,
        unbonding_amount: 9,
        penalty: 0,
        balance_blinding: scalar(70 + tag as u64),
    }
}

fn public(tag: u8) -> PublicAction {
    PublicAction { payload: vec![tag, tag, tag] }
}

fn fvk() -> FullViewingKey {
    FullViewingKey::from_components(
        (decaf377::Element::GENERATOR * decaf377::Fr::from(4242u64)).vartime_compress().0,
        NullifierKey(fq(b"nk")),
    )
}

fn plan(actions: Vec<ActionPlan>) -> TransactionPlan {
    TransactionPlan {
        actions,
        expiry_height: 77,
        valid_after: None,
        valid_before: Some(1_700_000_000),
        chain_id: String::from("testnet-1"),
        fee: Value { amount: 3, asset_id: fq(b"upenumbra") },
        clue_plans: vec![],
        memo_plan: None,
    }
}

fn proof_for(commitment: [u8; 32], position: u64) -> Proof {
    Proof { commitment, position, auth_path: [[position as u8; 32]; 72] }
}

fn witness_for(plan: &TransactionPlan) -> WitnessData {
    let mut proofs = Vec::new();
    for (i, action) in plan.actions.iter().enumerate() {
        if let Some(commitment) = action.commitment() {
            proofs.push(proof_for(commitment, i as u64));
        }
    }
    WitnessData { anchor: [0xaa; 32], state_commitment_proofs: proofs }
}

fn auth_for(plan: &TransactionPlan) -> AuthorizationData {
    let spends = count_category(&plan.actions, Category::Spend);
    let votes = count_category(&plan.actions, Category::DelegatorVote);
    AuthorizationData {
        spend_auths: (0..spends).map(|i| [i as u8 + 1; 64]).collect(),
        delegator_vote_auths: (0..votes).map(|i| [i as u8 + 101; 64]).collect(),
    }
}

fn mixed_plan() -> TransactionPlan {
    plan(vec![
        ActionPlan::DaoDeposit(public(1)),
        ActionPlan::Output(output(1, 5)),
        ActionPlan::DelegatorVote(vote(1)),
        ActionPlan::Spend(spend(1, 7)),
        ActionPlan::Delegate(public(2)),
        ActionPlan::SwapClaim(swap_claim(1)),
        ActionPlan::Output(output(2, 6)),
        ActionPlan::UndelegateClaim(undelegate_claim(1)),
        ActionPlan::Swap(swap(1)),
        ActionPlan::Spend(spend(2, 8)),
        ActionPlan::Spend(spend(3, 0)),
        ActionPlan::IbcAction(public(3)),
        ActionPlan::ValidatorVote(public(4)),
    ])
}

fn build(plan: TransactionPlan) -> Result<Transaction, Error> {
    let auth = auth_for(&plan);
    let witness = witness_for(&plan);
    plan.build(&[7u8; 32], &fvk(), auth, witness)
}

#[test]
fn empty_plan_builds_an_empty_transaction() {
    let tx = build(plan(vec![])).unwrap();
    assert!(tx.transaction_body.actions.is_empty());
    assert_eq!(tx.anchor, [0xaa; 32]);
    assert_eq!(tx.transaction_body.expiry_height, 77);
    assert_eq!(tx.transaction_body.valid_after, None);
    assert_eq!(tx.transaction_body.valid_before, Some(1_700_000_000));
    assert_eq!(tx.transaction_body.chain_id, "testnet-1");
    assert_eq!(tx.transaction_body.fee, Value { amount: 3, asset_id: fq(b"upenumbra") });
    assert_eq!(tx.transaction_body.memo, None);
    assert!(tx.verify_binding_sig());
}

#[test]
fn spends_come_first_and_outputs_right_after() {
    for n in 0..4u8 {
        for m in 0..4u8 {
            let mut actions = Vec::new();
            // Interleave outputs and spends, outputs first.
            for i in 0..n.max(m) {
                if i < m {
                    actions.push(ActionPlan::Output(output(i, 1 + i as u64)));
                }
                if i < n {
                    actions.push(ActionPlan::Spend(spend(i, 10 + i as u64)));
                }
            }
            let tx = build(plan(actions)).unwrap();
            let built = &tx.transaction_body.actions;
            assert_eq!(built.len(), (n + m) as usize);
            for i in 0..n {
                match &built[i as usize] {
                    Action::Spend(s) => {
                        assert_eq!(s.plan, spend(i, 10 + i as u64));
                        assert_eq!(s.auth_sig, [i + 1; 64]);
                        assert_eq!(s.auth_path.commitment, s.plan.note.commit());
                        assert_eq!(s.ak, fvk().ak);
                        assert_eq!(s.nk, fvk().nk);
                    }
                    other => panic!("expected a spend, got {:?}", other),
                }
            }
            for i in 0..m {
                match &built[(n + i) as usize] {
                    Action::Output(o) => {
                        assert_eq!(o.plan, output(i, 1 + i as u64));
                        assert_eq!(o.ovk, fvk().outgoing());
                        assert_eq!(o.memo_key, [0u8; 32]);
                    }
                    other => panic!("expected an output, got {:?}", other),
                }
            }
        }
    }
}

#[test]
fn actions_are_listed_in_canonical_order() {
    let tx = build(mixed_plan()).unwrap();
    let categories: Vec<Category> =
        tx.transaction_body.actions.iter().map(|a| a.category()).collect();
    assert_eq!(
        categories,
        vec![
            Category::Spend,
            Category::Spend,
            Category::Spend,
            Category::Output,
            Category::Output,
            Category::Swap,
            Category::SwapClaim,
            Category::Delegate,
            Category::UndelegateClaim,
            Category::ValidatorVote,
            Category::DelegatorVote,
            Category::IbcAction,
            Category::DaoDeposit,
        ]
    );
    match &tx.transaction_body.actions[1] {
        Action::Spend(s) => assert_eq!(s.plan, spend(2, 8)),
        other => panic!("unexpected {:?}", other),
    }
    match &tx.transaction_body.actions[4] {
        Action::Output(o) => assert_eq!(o.plan, output(2, 6)),
        other => panic!("unexpected {:?}", other),
    }
    match &tx.transaction_body.actions[6] {
        Action::SwapClaim(c) => {
            assert_eq!((c.lambda_1_i, c.lambda_2_i), (0, 20));
            assert_eq!(c.auth_path.commitment, c.plan.swap_plaintext.swap_commitment());
            assert_eq!(c.nk, fvk().nk);
        }
        other => panic!("unexpected {:?}", other),
    }
    match &tx.transaction_body.actions[10] {
        Action::DelegatorVote(v) => {
            assert_eq!(v.auth_sig, [101u8; 64]);
            assert_eq!(v.auth_path.commitment, v.plan.staked_note.commit());
        }
        other => panic!("unexpected {:?}", other),
    }
    assert_eq!(tx.transaction_body.actions[7], Action::Delegate(public(2)));
    assert_eq!(tx.transaction_body.actions[12], Action::DaoDeposit(public(1)));
}

#[test]
fn category_ranks_follow_the_canonical_order() {
    let order = [
        Category::Spend,
        Category::Output,
        Category::Swap,
        Category::SwapClaim,
        Category::Delegate,
        Category::Undelegate,
        Category::UndelegateClaim,
        Category::ProposalSubmit,
        Category::ProposalWithdraw,
        Category::ValidatorVote,
        Category::DelegatorVote,
        Category::ProposalDepositClaim,
        Category::ValidatorDefinition,
        Category::IbcAction,
        Category::DaoSpend,
        Category::DaoOutput,
        Category::DaoDeposit,
    ];
    for (rank, category) in order.iter().enumerate() {
        assert_eq!(category.rank() as usize, rank);
        assert_eq!(Category::from_rank(rank as u8), *category);
    }
}

#[test]
fn spend_auth_count_mismatch_fails() {
    // More signatures than spends, fewer, none against some, some against none.
    for (spends, auths) in [(0usize, 1usize), (1, 0), (2, 1), (1, 2), (3, 0), (0, 3)] {
        let actions: Vec<ActionPlan> =
            (0..spends).map(|i| ActionPlan::Spend(spend(i as u8, 5))).collect();
        let plan = plan(actions);
        let witness = witness_for(&plan);
        let auth = AuthorizationData {
            spend_auths: vec![[1u8; 64]; auths],
            delegator_vote_auths: vec![],
        };
        assert_eq!(
            plan.build(&[0u8; 32], &fvk(), auth, witness),
            Err(Error::InputMismatch { category: Category::Spend, expected: spends, found: auths })
        );
    }
}

#[test]
fn vote_auth_count_mismatch_fails() {
    let plan = plan(vec![ActionPlan::DelegatorVote(vote(1)), ActionPlan::Spend(spend(1, 1))]);
    let witness = witness_for(&plan);
    let auth = AuthorizationData { spend_auths: vec![[1u8; 64]], delegator_vote_auths: vec![] };
    assert_eq!(
        plan.build(&[0u8; 32], &fvk(), auth, witness),
        Err(Error::InputMismatch { category: Category::DelegatorVote, expected: 1, found: 0 })
    );
}

#[test]
fn spend_mismatch_is_reported_before_vote_mismatch_and_missing_proofs() {
    let plan = plan(vec![ActionPlan::DelegatorVote(vote(1)), ActionPlan::Spend(spend(1, 1))]);
    let auth = AuthorizationData { spend_auths: vec![], delegator_vote_auths: vec![] };
    let witness = WitnessData { anchor: [0u8; 32], state_commitment_proofs: vec![] };
    assert_eq!(
        plan.build(&[0u8; 32], &fvk(), auth, witness),
        Err(Error::InputMismatch { category: Category::Spend, expected: 1, found: 0 })
    );
}

#[test]
fn missing_spend_proof_fails_and_names_the_commitment() {
    let plan = mixed_plan();
    let auth = auth_for(&plan);
    let mut witness = witness_for(&plan);
    let missing = spend(2, 8).note.commit();
    witness.state_commitment_proofs.retain(|p| p.commitment != missing);
    assert_eq!(
        plan.build(&[0u8; 32], &fvk(), auth, witness),
        Err(Error::MissingProof { commitment: missing })
    );
}

#[test]
fn first_missing_proof_in_canonical_order_is_named() {
    let plan = mixed_plan();
    let auth = auth_for(&plan);
    let witness = WitnessData { anchor: [0u8; 32], state_commitment_proofs: vec![] };
    // The vote comes first in the plan, but spends come first in the transaction.
    assert_eq!(
        plan.build(&[0u8; 32], &fvk(), auth, witness),
        Err(Error::MissingProof { commitment: spend(1, 7).note.commit() })
    );
}

#[test]
fn missing_swap_claim_and_vote_proofs_fail() {
    let plan = mixed_plan();
    let auth = auth_for(&plan);
    let mut witness = witness_for(&plan);
    let claim = swap_claim(1).swap_plaintext.swap_commitment();
    let staked = vote(1).staked_note.commit();
    witness.state_commitment_proofs.retain(|p| p.commitment != staked);
    assert_eq!(
        plan.clone().build(&[0u8; 32], &fvk(), auth.clone(), witness.clone()),
        Err(Error::MissingProof { commitment: staked })
    );
    witness.state_commitment_proofs.retain(|p| p.commitment != claim);
    assert_eq!(
        plan.build(&[0u8; 32], &fvk(), auth, witness),
        Err(Error::MissingProof { commitment: claim })
    );
}

#[test]
fn dummy_spend_needs_a_proof_in_the_witness_data_too() {
    let plan = plan(vec![ActionPlan::Spend(spend(1, 0))]);
    let auth = auth_for(&plan);
    let witness = WitnessData { anchor: [0u8; 32], state_commitment_proofs: vec![] };
    assert_eq!(
        plan.build(&[0u8; 32], &fvk(), auth, witness),
        Err(Error::MissingProof { commitment: spend(1, 0).note.commit() })
    );
}

#[test]
fn swap_commitment_is_nested_poseidon_hash() {
    let p = plaintext(3);
    let f = |b: &[u8]| decaf377::Fq::from_le_bytes_mod_order(b);
    let ds = f(blake2b_simd::blake2b(b"penumbra.swap").as_bytes());
    let inner = poseidon377::hash_4(
        &ds,
        (
            f(&p.trading_pair.asset_1),
            f(&p.trading_pair.asset_2),
            decaf377::Fq::from(10u64),
            decaf377::Fq::from(0u64),
        ),
    );
    let expected = poseidon377::hash_7(
        &ds,
        (
            f(&p.rseed),
            decaf377::Fq::from(1u64),
            f(&p.claim_fee.asset_id),
            f(&p.claim_address.diversified_generator),
            f(&p.claim_address.transmission_key),
            f(&p.claim_address.clue_key),
            inner,
        ),
    )
    .to_bytes();
    assert_eq!(p.swap_commitment(), expected);
}

#[test]
fn blinding_accumulator_adds_modulo_the_group_order() {
    let mut acc = BlindingAccumulator::new();
    assert_eq!(acc.sum(), [0u8; 32]);
    acc.add(&scalar(1));
    acc.add(&scalar(2));
    assert_eq!(acc.sum(), scalar(3));
    let minus_one = (-decaf377::Fr::from(1u64)).to_bytes();
    acc.add(&minus_one);
    assert_eq!(acc.sum(), scalar(2));
    acc.add(&minus_one);
    acc.add(&minus_one);
    acc.add(&minus_one);
    assert_eq!(acc.finalize(), minus_one);
}

#[test]
fn blinding_sum_is_the_sum_of_the_blinded_actions() {
    let assembly = assemble(
        &mixed_plan(),
        &fvk(),
        &auth_for(&mixed_plan()),
        &witness_for(&mixed_plan()),
    )
    .unwrap();
    // Spends 11, 12, 13; outputs 21, 22; swap 41; undelegate claim 71.
    assert_eq!(assembly.blinding_sum, scalar(11 + 12 + 13 + 21 + 22 + 41 + 71));
    assert_eq!(assembly.actions.len(), 13);
    assert_eq!(assembly.memo, None);
}

#[test]
fn blinding_sum_does_not_depend_on_the_order_of_the_plan() {
    let forward = mixed_plan();
    let mut backward = mixed_plan();
    backward.actions.reverse();
    let a = assemble(&forward, &fvk(), &auth_for(&forward), &witness_for(&forward)).unwrap();
    let b = assemble(&backward, &fvk(), &auth_for(&backward), &witness_for(&backward)).unwrap();
    assert_eq!(a.blinding_sum, b.blinding_sum);
}

#[test]
fn binding_signature_verifies_and_binds_blindings_and_amounts() {
    let tx = build(mixed_plan()).unwrap();
    assert!(tx.verify_binding_sig());
    let sk = decaf377::Fr::from(11u64 + 12 + 13 + 21 + 22 + 41 + 71);
    let key = decaf377_rdsa::SigningKey::<decaf377_rdsa::Binding>::new_from_field(sk);
    assert_eq!(
        tx.binding_verification_key(),
        decaf377_rdsa::VerificationKey::from(key).to_bytes()
    );
    assert_eq!(tx.transaction_body.blinding_sum(), sk.to_bytes());
    let vk =
        decaf377_rdsa::VerificationKey::<decaf377_rdsa::Binding>::try_from(tx.binding_verification_key())
            .unwrap();
    let sig = decaf377_rdsa::Signature::<decaf377_rdsa::Binding>::from(tx.binding_sig);
    assert!(vk.verify(&tx.transaction_body.auth_hash(), &sig).is_ok());

    // Flip the recorded value blinding of one action.
    let mut blinded = tx.clone();
    if let Action::Spend(s) = &mut blinded.transaction_body.actions[0] {
        s.plan.value_blinding = scalar(999);
    }
    assert!(!blinded.verify_binding_sig());

    // Flip the recorded amount of one action.
    let mut amount = tx.clone();
    if let Action::Output(o) = &mut amount.transaction_body.actions[3] {
        o.plan.value.amount += 1;
    }
    assert!(!amount.verify_binding_sig());

    // Swap two actions.
    let mut swapped = tx.clone();
    swapped.transaction_body.actions.swap(0, 1);
    assert!(!swapped.verify_binding_sig());

    // Tamper with the signature itself.
    let mut forged = tx.clone();
    forged.binding_sig[40] ^= 1;
    assert!(!forged.verify_binding_sig());
}

#[test]
fn signature_is_a_function_of_the_seed() {
    let a = mixed_plan().build(&[1u8; 32], &fvk(), auth_for(&mixed_plan()), witness_for(&mixed_plan())).unwrap();
    let b = mixed_plan().build(&[1u8; 32], &fvk(), auth_for(&mixed_plan()), witness_for(&mixed_plan())).unwrap();
    let c = mixed_plan().build(&[2u8; 32], &fvk(), auth_for(&mixed_plan()), witness_for(&mixed_plan())).unwrap();
    assert_eq!(a, b);
    assert_ne!(a.binding_sig, c.binding_sig);
    assert_eq!(a.transaction_body, c.transaction_body);
    assert!(c.verify_binding_sig());
}

#[test]
fn sign_puts_the_transaction_together() {
    let body = TransactionBody {
        actions: vec![Action::DaoSpend(public(5))],
        expiry_height: 1,
        valid_after: Some(2),
        valid_before: None,
        chain_id: String::from("x"),
        fee: Value { amount: 0, asset_id: [0u8; 32] },
        fmd_clues: vec![],
        memo: None,
    };
    let tx = sign(body.clone(), &scalar(0), &[3u8; 32], [5u8; 32]);
    assert_eq!(tx.transaction_body, body);
    assert_eq!(tx.anchor, [5u8; 32]);
    assert!(tx.verify_binding_sig());
}

#[test]
fn plan_hash_agrees_with_the_hash_of_the_built_body() {
    let mut plan = mixed_plan();
    plan.memo_plan = Some(MemoPlan { plaintext: b"hello".to_vec(), key: [4u8; 32] });
    plan.clue_plans = vec![CluePlan { address: address(1), rseed: [8u8; 32], precision_bits: 3 }];
    let preview = plan.auth_hash();
    let tx = build(plan).unwrap();
    assert_eq!(tx.transaction_body.auth_hash(), preview);
    let reordered = {
        let mut p = mixed_plan();
        p.memo_plan = Some(MemoPlan { plaintext: b"hello".to_vec(), key: [4u8; 32] });
        p.clue_plans = vec![CluePlan { address: address(1), rseed: [8u8; 32], precision_bits: 3 }];
        p.actions.swap(1, 6);
        p
    };
    assert_ne!(reordered.auth_hash(), preview);
}

#[test]
fn auth_hash_of_an_empty_body_has_the_stated_layout() {
    let plan = plan(vec![]);
    let mut preimage = Vec::new();
    preimage.extend_from_slice(&9u64.to_le_bytes());
    preimage.extend_from_slice(b"testnet-1");
    preimage.extend_from_slice(&77u64.to_le_bytes());
    preimage.push(0);
    preimage.extend_from_slice(&0u64.to_le_bytes());
    preimage.push(1);
    preimage.extend_from_slice(&1_700_000_000u64.to_le_bytes());
    preimage.extend_from_slice(&3u64.to_le_bytes());
    preimage.extend_from_slice(&fq(b"upenumbra"));
    preimage.push(0);
    preimage.extend_from_slice(&0u64.to_le_bytes());
    preimage.extend_from_slice(&0u64.to_le_bytes());
    let expected = blake2b_simd::Params::new().personal(b"PAH:tx_body").hash(&preimage);
    assert_eq!(&plan.auth_hash()[..], expected.as_bytes());
}

#[test]
fn action_hash_is_personalized() {
    let encoded = ActionPlan::Delegate(public(2)).encode();
    assert_eq!(encoded, vec![4u8, 2, 2, 2]);
    let expected = blake2b_simd::Params::new().personal(b"PAH:action").hash(&encoded);
    assert_eq!(&hash_action(&encoded)[..], expected.as_bytes());
    assert_eq!(Action::Delegate(public(2)).encode(), encoded);
}

#[test]
fn action_encodes_as_its_plan() {
    let tx = build(mixed_plan()).unwrap();
    let plan = mixed_plan();
    let spend_plan = plan.actions[3].encode();
    assert_eq!(tx.transaction_body.actions[0].encode(), spend_plan);
    assert_eq!(spend_plan[0], 0);
    assert_eq!(spend_plan.len(), 1 + 8 + 32 + 32 + 96 + 8 + 32 + 32);
    assert_eq!(&spend_plan[1..9], &7u64.to_le_bytes());
}

#[test]
fn memo_is_padded_and_encrypted_under_its_key() {
    let memo_plan = MemoPlan { plaintext: b"a memo".to_vec(), key: [4u8; 32] };
    let ciphertext = memo_plan.memo().unwrap();
    assert_eq!(ciphertext.len(), MEMO_CIPHERTEXT_LEN_BYTES);
    let cipher = chacha20poly1305::ChaCha20Poly1305::new(&[4u8; 32].into());
    let nonce = [2u8, 0, 0, 0, 0, 0, 0, 0, 0, 0, 0, 0];
    let plaintext = cipher.decrypt(&nonce.into(), ciphertext.as_ref()).unwrap();
    let mut padded = b"a memo".to_vec();
    padded.resize(512, 0);
    assert_eq!(plaintext, padded);
    assert_eq!(encrypt_memo(&Some(memo_plan.clone())), Some(ciphertext));
    assert_eq!(encrypt_memo(&None), None);
    assert_eq!(payload_key(&Some(memo_plan)), [4u8; 32]);
    assert_eq!(payload_key(&None), [0u8; 32]);
}

#[test]
fn memo_of_full_length_is_encrypted_and_a_longer_one_is_dropped() {
    let full = MemoPlan { plaintext: vec![b'x'; 512], key: [1u8; 32] };
    assert_eq!(full.memo().unwrap().len(), 528);
    let long = MemoPlan { plaintext: vec![b'x'; 513], key: [1u8; 32] };
    assert_eq!(long.memo(), None);
    let mut plan = plan(vec![ActionPlan::Output(output(1, 5))]);
    plan.memo_plan = Some(long);
    let tx = build(plan).unwrap();
    assert_eq!(tx.transaction_body.memo, None);
    match &tx.transaction_body.actions[0] {
        Action::Output(o) => assert_eq!(o.memo_key, [1u8; 32]),
        other => panic!("unexpected {:?}", other),
    }
}

#[test]
fn outputs_are_encrypted_under_the_memo_key() {
    let mut plan = plan(vec![ActionPlan::Output(output(1, 5))]);
    plan.memo_plan = Some(MemoPlan { plaintext: b"hi".to_vec(), key: [6u8; 32] });
    let tx = build(plan).unwrap();
    assert!(tx.transaction_body.memo.is_some());
    match &tx.transaction_body.actions[0] {
        Action::Output(o) => assert_eq!(o.memo_key, [6u8; 32]),
        other => panic!("unexpected {:?}", other),
    }
}

#[test]
fn clues_are_made_in_the_order_of_their_plans() {
    let plans = vec![
        CluePlan { address: address(1), rseed: [1u8; 32], precision_bits: 1 },
        CluePlan { address: address(2), rseed: [2u8; 32], precision_bits: 2 },
    ];
    let clues = make_clues(&plans);
    assert_eq!(clues.len(), 2);
    assert_eq!(clues[0], plans[0].clue());
    assert_eq!(clues[1].clue_key, [2u8; 32]);
    assert_eq!(clues[1].rseed, [2u8; 32]);
    assert_eq!(clues[1].precision_bits, 2);
    let mut plan = plan(vec![]);
    plan.clue_plans = plans;
    assert_eq!(build(plan).unwrap().transaction_body.fmd_clues, clues);
}

#[test]
fn plans_are_listed_by_category_in_the_order_of_the_plan() {
    let plan = mixed_plan();
    assert_eq!(plan.spend_plans(), vec![spend(1, 7), spend(2, 8), spend(3, 0)]);
    assert_eq!(plan.output_plans(), vec![output(1, 5), output(2, 6)]);
    assert_eq!(plan.swap_plans(), vec![swap(1)]);
    assert_eq!(plan.swap_claim_plans(), vec![swap_claim(1)]);
    assert_eq!(plan.undelegate_claim_plans(), vec![undelegate_claim(1)]);
    assert_eq!(plan.delegator_vote_plans(), vec![vote(1)]);
    assert_eq!(self::plan(vec![]).spend_plans(), vec![]);
}
