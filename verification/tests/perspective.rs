use shielded_tx::error::{Error, Malformed};
use shielded_tx::note::{Address, Note, Value};
use shielded_tx::perspective::{
    address_views, advice_notes, exactly32, insert, lookup, payload_keys, read_address,
    spend_nullifiers, NoteMessage, NullifierWithNote, PayloadKeyWithCommitment,
    TransactionPerspective, TransactionPerspectiveMessage,
};
use shielded_tx::service::{
    check_planner_request, AssetKind, AssetsRequest, Unimplemented,
};

fn key(n: u64) -> [u8; 32] {
    decaf377::Fq::from(n).to_bytes()
}

fn note(tag: u8) -> Note {
    Note {
        value: Value { amount: tag as u64, asset_id: key(1) },
        note_blinding: key(tag as u64 + 10),
        address: Address {
            diversified_generator: [tag; 32],
            transmission_key: [tag + 1; 32],
            clue_key: [tag + 2; 32],
        },
    }
}

fn malformed<T>(what: Malformed) -> Result<T, Error> {
    Err(Error::MalformedInput { what })
}

fn message() -> TransactionPerspectiveMessage {
    TransactionPerspectiveMessage {
        payload_keys: vec![
            PayloadKeyWithCommitment { payload_key: vec![1; 32], commitment: Some(key(300).to_vec()) },
            PayloadKeyWithCommitment { payload_key: vec![9; 3], commitment: None },
            PayloadKeyWithCommitment { payload_key: vec![2; 32], commitment: Some(key(255).to_vec()) },
            PayloadKeyWithCommitment { payload_key: vec![3; 32], commitment: Some(key(300).to_vec()) },
        ],
        spend_nullifiers: vec![NullifierWithNote {
            nullifier: Some(key(5).to_vec()),
            note: Some(note(1).to_message()),
        }],
        advice_notes: vec![note(2).to_message(), note(3).to_message()],
        address_views: vec![note(4).address.to_bytes()],
    }
}

#[test]
fn tables_are_kept_in_ascending_order_of_their_keys() {
    let mut table: Vec<([u8; 32], u8)> = Vec::new();
    insert(&mut table, key(256), 1);
    insert(&mut table, key(255), 2);
    insert(&mut table, key(70000), 3);
    insert(&mut table, key(1), 4);
    insert(&mut table, key(256), 5);
    assert_eq!(table, vec![(key(1), 4), (key(255), 2), (key(256), 5), (key(70000), 3)]);
    assert_eq!(lookup(&table, &key(256)), Some(5));
    assert_eq!(lookup(&table, &key(1)), Some(4));
    assert_eq!(lookup(&table, &key(2)), None);
    assert_eq!(lookup(&Vec::<([u8; 32], u8)>::new(), &key(2)), None);
}

#[test]
fn perspective_is_read_from_its_message() {
    let perspective = TransactionPerspective::try_from(message()).unwrap();
    assert_eq!(perspective.payload_keys, vec![(key(255), [2; 32]), (key(300), [3; 32])]);
    assert_eq!(perspective.spend_nullifiers, vec![(key(5), note(1))]);
    let mut advice = vec![(note(2).commit(), note(2)), (note(3).commit(), note(3))];
    advice.sort_by_key(|(commitment, _)| {
        let mut big_endian = *commitment;
        big_endian.reverse();
        big_endian
    });
    assert_eq!(perspective.advice_notes, advice);
    assert_eq!(perspective.address_views, vec![note(4).address]);
}

#[test]
fn perspective_round_trips_through_its_message() {
    let perspective = TransactionPerspective::try_from(message()).unwrap();
    let written = perspective.to_message();
    assert_eq!(written.payload_keys.len(), 2);
    assert_eq!(written.payload_keys[0].commitment, Some(key(255).to_vec()));
    assert_eq!(written.payload_keys[0].payload_key, vec![2; 32]);
    assert_eq!(written.spend_nullifiers[0].nullifier, Some(key(5).to_vec()));
    assert_eq!(written.spend_nullifiers[0].note, Some(note(1).to_message()));
    assert_eq!(written.address_views, vec![note(4).address.to_bytes()]);
    assert_eq!(TransactionPerspective::try_from(written), Ok(perspective));
}

#[test]
fn malformed_perspectives_are_refused() {
    let mut bad = message();
    bad.payload_keys[0].commitment = Some(vec![0xff; 32]);
    assert_eq!(TransactionPerspective::try_from(bad), malformed(Malformed::Commitment));
    let mut bad = message();
    bad.payload_keys[2].payload_key = vec![1; 31];
    bad.spend_nullifiers[0].nullifier = None;
    assert_eq!(TransactionPerspective::try_from(bad), malformed(Malformed::PayloadKey));
    let mut bad = message();
    bad.spend_nullifiers[0].nullifier = None;
    assert_eq!(TransactionPerspective::try_from(bad), malformed(Malformed::Nullifier));
    let mut bad = message();
    bad.spend_nullifiers[0].nullifier = Some(vec![1, 2]);
    bad.spend_nullifiers[0].note = None;
    assert_eq!(TransactionPerspective::try_from(bad), malformed(Malformed::Nullifier));
    let mut bad = message();
    bad.spend_nullifiers[0].note = None;
    assert_eq!(TransactionPerspective::try_from(bad), malformed(Malformed::Note));
    let mut bad = message();
    bad.advice_notes[1].asset_id = vec![0xff; 32];
    bad.address_views[0] = vec![];
    assert_eq!(TransactionPerspective::try_from(bad), malformed(Malformed::Note));
    let mut bad = message();
    bad.address_views[0] = vec![0; 95];
    assert_eq!(TransactionPerspective::try_from(bad), malformed(Malformed::Address));
}

#[test]
fn each_table_is_read_by_itself() {
    assert_eq!(payload_keys(&vec![]), Ok(vec![]));
    assert_eq!(spend_nullifiers(&vec![]), Ok(vec![]));
    assert_eq!(advice_notes(&vec![note(7).to_message()]), Ok(vec![(note(7).commit(), note(7))]));
    assert_eq!(address_views(&vec![vec![1; 96]]).map(|a| a.len()), Ok(1));
    assert_eq!(address_views(&vec![vec![1; 96], vec![1; 97]]), malformed(Malformed::Address));
}

#[test]
fn notes_and_addresses_are_read_from_bytes() {
    let written = note(9).to_message();
    assert_eq!(written.amount, 9);
    assert_eq!(written.address.len(), 96);
    assert_eq!(written.note(), Some(note(9)));
    let mut bad = written.clone();
    bad.note_blinding = vec![0xff; 32];
    assert_eq!(bad.note(), None);
    let mut bad = written.clone();
    bad.address.push(0);
    assert_eq!(bad.note(), None);
    let bytes: Vec<u8> = (0..96).collect();
    let address = read_address(&bytes).unwrap();
    assert_eq!(&address.diversified_generator[..], &bytes[..32]);
    assert_eq!(&address.transmission_key[..], &bytes[32..64]);
    assert_eq!(&address.clue_key[..], &bytes[64..]);
    assert_eq!(address.to_bytes(), bytes);
    assert_eq!(exactly32(&bytes[..32].to_vec()).map(|a| a.to_vec()), Some(bytes[..32].to_vec()));
    assert_eq!(exactly32(&bytes), None);
    let _: NoteMessage = written;
}

#[test]
fn planner_refuses_what_it_cannot_plan() {
    assert_eq!(check_planner_request(0, 0, 0), Ok(()));
    assert_eq!(check_planner_request(1, 1, 1), Err(Unimplemented::Swaps));
    assert_eq!(check_planner_request(0, 2, 1), Err(Unimplemented::Delegations));
    assert_eq!(check_planner_request(0, 0, 3), Err(Unimplemented::Undelegations));
}

#[test]
fn assets_are_asked_for_by_kind() {
    let mut request = AssetsRequest {
        filtered: false,
        include_delegation_tokens: true,
        include_unbonding_tokens: false,
        include_lp_nfts: true,
        include_proposal_nfts: false,
        include_voting_receipt_tokens: true,
    };
    assert_eq!(request.kinds(), None);
    request.filtered = true;
    assert_eq!(
        request.kinds(),
        Some(vec![AssetKind::DelegationToken, AssetKind::LpNft, AssetKind::VotingReceiptToken])
    );
    request.include_delegation_tokens = false;
    request.include_lp_nfts = false;
    request.include_voting_receipt_tokens = false;
    assert_eq!(request.kinds(), Some(vec![]));
    request.include_unbonding_tokens = true;
    request.include_proposal_nfts = true;
    assert_eq!(request.kinds(), Some(vec![AssetKind::UnbondingToken, AssetKind::ProposalNft]));
}
