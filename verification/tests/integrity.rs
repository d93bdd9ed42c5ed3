use shielded_tx::balance::{blinding_generator, value_generator, Balance, Imbalance};
use shielded_tx::domain::{domain_separator, notecommit_domain_separator, nullifier_domain_separator};
use shielded_tx::error::{Error, IntegrityCheck, Malformed};
use shielded_tx::action::Spend;
use shielded_tx::integrity::{
    balance_commitment_integrity, diversified_address_integrity,
    diversified_basepoint_not_identity, note_commitment_integrity, nullifier_integrity,
    rk_integrity, spend_integrity, SpendPublic,
};
use shielded_tx::plan::SpendPlan;
use shielded_tx::witness::Proof;
use shielded_tx::keys::{FullViewingKey, NullifierKey};
use shielded_tx::note::{commitment, Address, Note, Value};

fn fq(bytes: &[u8]) -> decaf377::Fq {
    decaf377::Fq::from_le_bytes_mod_order(bytes)
}

fn generator() -> [u8; 32] {
    decaf377::Element::GENERATOR.vartime_compress().0
}

fn scalar(n: u64) -> [u8; 32] {
    decaf377::Fr::from(n).to_bytes()
}

fn sample_note() -> Note {
    let g_d = (decaf377::Element::GENERATOR * decaf377::Fr::from(5u64)).vartime_compress().0;
    let pk_d = (decaf377::Element::GENERATOR * decaf377::Fr::from(35u64)).vartime_compress().0;
    Note {
        value: Value { amount: 1000, asset_id: fq(b"asset").to_bytes() },
        note_blinding: fq(b"blinding").to_bytes(),
        address: Address { diversified_generator: g_d, transmission_key: pk_d, clue_key: [9u8; 32] },
    }
}

fn violation(check: IntegrityCheck) -> Result<(), Error> {
    Err(Error::IntegrityViolation { check })
}

#[test]
fn domain_separator_is_reduced_digest_of_label() {
    let expected = fq(blake2b_simd::blake2b(b"penumbra.notecommit").as_bytes()).to_bytes();
    assert_eq!(notecommit_domain_separator(), expected);
    assert_eq!(domain_separator(b"penumbra.notecommit"), expected);
    let other = fq(blake2b_simd::blake2b(b"penumbra.nullifier").as_bytes()).to_bytes();
    assert_eq!(nullifier_domain_separator(), other);
    assert_ne!(expected, other);
}

#[test]
fn note_commitment_is_poseidon_hash_of_its_fields() {
    let note = sample_note();
    let ds = fq(blake2b_simd::blake2b(b"penumbra.notecommit").as_bytes());
    let expected = poseidon377::hash_6(
        &ds,
        (
            fq(&note.note_blinding),
            decaf377::Fq::from(1000u64),
            fq(&note.value.asset_id),
            fq(&note.address.diversified_generator),
            fq(&note.address.transmission_key),
            fq(&note.address.clue_key),
        ),
    )
    .to_bytes();
    assert_eq!(note.commit(), expected);
    assert_eq!(
        commitment(
            &note.note_blinding,
            &note.value,
            &note.address.diversified_generator,
            &note.address.transmission_key,
            &note.address.clue_key
        ),
        expected
    );
}

#[test]
fn note_commitment_integrity_accepts_the_commitment_and_nothing_else() {
    let note = sample_note();
    let cm = note.commit();
    assert_eq!(note_commitment_integrity(note, cm), Ok(()));
    let mut other = cm;
    other[0] ^= 1;
    assert_eq!(note_commitment_integrity(note, other), violation(IntegrityCheck::NoteCommitment));
    let mut changed = note;
    changed.value.amount += 1;
    assert_eq!(note_commitment_integrity(changed, cm), violation(IntegrityCheck::NoteCommitment));
}

#[test]
fn nullifier_is_poseidon_hash_of_key_commitment_and_position() {
    let nk = NullifierKey(fq(b"nullifier key").to_bytes());
    let cm = sample_note().commit();
    let ds = fq(blake2b_simd::blake2b(b"penumbra.nullifier").as_bytes());
    let expected =
        poseidon377::hash_3(&ds, (fq(&nk.0), fq(&cm), decaf377::Fq::from(77u64))).to_bytes();
    assert_eq!(nk.derive_nullifier(77, &cm), expected);
}

#[test]
fn nullifier_integrity_holds_for_the_derived_nullifier_only() {
    let nk = NullifierKey(fq(b"nullifier key").to_bytes());
    let cm = sample_note().commit();
    let nf = nk.derive_nullifier(12, &cm);
    assert_eq!(nullifier_integrity(nf, nk, 12, cm), Ok(()));
    assert_eq!(nullifier_integrity(nf, nk, 13, cm), violation(IntegrityCheck::Nullifier));
    let other_nk = NullifierKey(fq(b"another key").to_bytes());
    assert_eq!(nullifier_integrity(nf, other_nk, 12, cm), violation(IntegrityCheck::Nullifier));
}

#[test]
fn nullifier_integrity_fails_on_every_single_bit_flip() {
    let nk = NullifierKey(fq(b"nullifier key").to_bytes());
    let cm = sample_note().commit();
    let nf = nk.derive_nullifier(3, &cm);
    for bit in 0..256usize {
        let mut flipped = nf;
        flipped[bit / 8] ^= 1u8 << (bit % 8);
        assert_eq!(
            nullifier_integrity(flipped, nk, 3, cm),
            violation(IntegrityCheck::Nullifier)
        );
    }
}

#[test]
fn value_generator_is_hashed_to_the_curve() {
    let asset = fq(b"asset").to_bytes();
    let ds = fq(blake2b_simd::blake2b(b"penumbra.value.generator").as_bytes());
    let expected = decaf377::Element::encode_to_curve(&poseidon377::hash_1(&ds, fq(&asset)))
        .vartime_compress()
        .0;
    assert_eq!(value_generator(&asset), expected);
    let h = decaf377::Element::encode_to_curve(&fq(
        blake2b_simd::blake2b(b"decaf377-rdsa-binding").as_bytes(),
    ))
    .vartime_compress()
    .0;
    assert_eq!(blinding_generator(), h);
}

#[test]
fn balance_commitment_adds_provided_and_subtracts_required() {
    let asset_a = fq(b"a").to_bytes();
    let asset_b = fq(b"b").to_bytes();
    let balance = Balance {
        imbalances: vec![
            Imbalance { value: Value { amount: 10, asset_id: asset_a }, required: false },
            Imbalance { value: Value { amount: 4, asset_id: asset_b }, required: true },
        ],
    };
    let blinding = scalar(123);
    let g_a = decaf377::Encoding(value_generator(&asset_a)).vartime_decompress().unwrap();
    let g_b = decaf377::Encoding(value_generator(&asset_b)).vartime_decompress().unwrap();
    let h = decaf377::Encoding(blinding_generator()).vartime_decompress().unwrap();
    let expected = (h * decaf377::Fr::from(123u64) + g_a * decaf377::Fr::from(10u64)
        - g_b * decaf377::Fr::from(4u64))
    .vartime_compress()
    .0;
    assert_eq!(balance.commit(&blinding), Some(expected));
    assert_eq!(balance_commitment_integrity(expected, blinding, balance.clone()), Ok(()));
    assert_eq!(
        balance_commitment_integrity(expected, scalar(124), balance.clone()),
        violation(IntegrityCheck::BalanceCommitment)
    );
    let mut wrong = expected;
    wrong[1] ^= 4;
    assert_eq!(
        balance_commitment_integrity(wrong, blinding, balance),
        violation(IntegrityCheck::BalanceCommitment)
    );
}

#[test]
fn empty_balance_commits_to_the_blinding_alone() {
    let balance = Balance { imbalances: vec![] };
    let h = decaf377::Encoding(blinding_generator()).vartime_decompress().unwrap();
    let expected = (h * decaf377::Fr::from(7u64)).vartime_compress().0;
    assert_eq!(balance.commit(&scalar(7)), Some(expected));
}

#[test]
fn incoming_viewing_key_and_diversified_public() {
    let ak = generator();
    let nk = NullifierKey(fq(b"nk").to_bytes());
    let fvk = FullViewingKey::from_components(ak, nk);
    let ds = fq(blake2b_simd::blake2b(b"penumbra.derive.ivk").as_bytes());
    let ivk_mod_q = poseidon377::hash_2(&ds, (fq(&nk.0), fq(&ak)));
    let ivk = decaf377::Fr::from_le_bytes_mod_order(&ivk_mod_q.to_bytes());
    assert_eq!(fvk.incoming().ivk, ivk.to_bytes());
    let g_d = (decaf377::Element::GENERATOR * decaf377::Fr::from(9u64)).vartime_compress().0;
    let pk_d = (decaf377::Element::GENERATOR * decaf377::Fr::from(9u64) * ivk)
        .vartime_compress()
        .0;
    assert_eq!(fvk.incoming().diversified_public(&g_d), Some(pk_d));
    assert_eq!(fvk.incoming().diversified_public(&[0xffu8; 32]), None);
}

#[test]
fn outgoing_viewing_key_is_first_half_of_keyed_digest() {
    let ak = generator();
    let nk = NullifierKey(fq(b"nk").to_bytes());
    let fvk = FullViewingKey::from_components(ak, nk);
    let digest = blake2b_simd::Params::new()
        .personal(b"Penumbra_ExpndVK")
        .key(&nk.0)
        .hash(&ak);
    assert_eq!(&fvk.outgoing().0[..], &digest.as_bytes()[..32]);
    assert_eq!(fvk.spend_verification_key(), &ak);
    assert_eq!(fvk.nullifier_key(), &nk);
}

#[test]
fn diversified_address_integrity_follows_the_viewing_key() {
    let ak = generator();
    let nk = NullifierKey(fq(b"nk").to_bytes());
    let fvk = FullViewingKey::from_components(ak, nk);
    let g_d = (decaf377::Element::GENERATOR * decaf377::Fr::from(11u64)).vartime_compress().0;
    let pk_d = fvk.incoming().diversified_public(&g_d).unwrap();
    let mut note = sample_note();
    note.address.diversified_generator = g_d;
    note.address.transmission_key = pk_d;
    assert_eq!(diversified_address_integrity(ak, nk, note), Ok(()));
    let other = NullifierKey(fq(b"other").to_bytes());
    assert_eq!(
        diversified_address_integrity(ak, other, note),
        violation(IntegrityCheck::DiversifiedAddress)
    );
    note.address.diversified_generator = [0xffu8; 32];
    assert_eq!(
        diversified_address_integrity(ak, nk, note),
        violation(IntegrityCheck::DiversifiedAddress)
    );
}

#[test]
fn diversified_basepoint_must_not_be_identity() {
    assert_eq!(diversified_basepoint_not_identity(generator()), Ok(()));
    let identity = decaf377::Element::IDENTITY.vartime_compress().0;
    assert_eq!(
        diversified_basepoint_not_identity(identity),
        violation(IntegrityCheck::DiversifiedBasepoint)
    );
    assert_eq!(
        diversified_basepoint_not_identity([0xffu8; 32]),
        Err(Error::MalformedInput { what: Malformed::GroupElement })
    );
}

#[test]
fn rk_integrity_accepts_the_randomized_key_only() {
    let sk = decaf377::Fr::from(4242u64);
    let ak = (decaf377::Element::GENERATOR * sk).vartime_compress().0;
    let randomizer = scalar(99);
    let key =
        decaf377_rdsa::VerificationKey::<decaf377_rdsa::SpendAuth>::try_from(ak).unwrap();
    let rk = key.randomize(&decaf377::Fr::from(99u64)).to_bytes();
    assert_ne!(rk, ak);
    assert_eq!(rk_integrity(randomizer, rk, ak), Ok(()));
    assert_eq!(rk_integrity(scalar(98), rk, ak), violation(IntegrityCheck::RandomizedKey));
    assert_eq!(rk_integrity(randomizer, ak, ak), violation(IntegrityCheck::RandomizedKey));
    assert_eq!(
        rk_integrity(randomizer, rk, [0xffu8; 32]),
        violation(IntegrityCheck::RandomizedKey)
    );
}

fn own_spend() -> Spend {
    let ak = (decaf377::Element::GENERATOR * decaf377::Fr::from(4242u64)).vartime_compress().0;
    let nk = NullifierKey(fq(b"nk").to_bytes());
    let fvk = FullViewingKey::from_components(ak, nk);
    let g_d = (decaf377::Element::GENERATOR * decaf377::Fr::from(11u64)).vartime_compress().0;
    let mut note = sample_note();
    note.address.diversified_generator = g_d;
    note.address.transmission_key = fvk.incoming().diversified_public(&g_d).unwrap();
    let plan = SpendPlan {
        note,
        position: 6,
        randomizer: scalar(31),
        value_blinding: scalar(32),
    };
    let auth_path = Proof { commitment: note.commit(), position: 6, auth_path: [[0u8; 32]; 72] };
    plan.spend(&fvk, [0u8; 64], auth_path)
}

#[test]
fn spend_shows_what_is_derived_from_it() {
    let spend = own_spend();
    let public = spend.public().unwrap();
    assert_eq!(
        public.nullifier,
        spend.nk.derive_nullifier(6, &spend.plan.note.commit())
    );
    let key = decaf377_rdsa::VerificationKey::<decaf377_rdsa::SpendAuth>::try_from(spend.ak)
        .unwrap();
    assert_eq!(public.rk, key.randomize(&decaf377::Fr::from(31u64)).to_bytes());
    let g = decaf377::Encoding(value_generator(&spend.plan.note.value.asset_id))
        .vartime_decompress()
        .unwrap();
    let h = decaf377::Encoding(blinding_generator()).vartime_decompress().unwrap();
    let commitment =
        (h * decaf377::Fr::from(32u64) + g * decaf377::Fr::from(1000u64)).vartime_compress().0;
    assert_eq!(public.balance_commitment, commitment);
    let mut keyless = spend;
    keyless.ak = [0xff; 32];
    assert_eq!(keyless.public(), None);
}

#[test]
fn spend_passes_with_what_it_shows_and_fails_with_anything_else() {
    let spend = own_spend();
    let public = spend.public().unwrap();
    assert_eq!(spend_integrity(&spend, &public), Ok(()));

    let mut forged = public;
    forged.nullifier[3] ^= 0x10;
    assert_eq!(spend_integrity(&spend, &forged), violation(IntegrityCheck::Nullifier));
    let mut forged = public;
    forged.rk = spend.ak;
    assert_eq!(spend_integrity(&spend, &forged), violation(IntegrityCheck::RandomizedKey));
    let mut forged = public;
    forged.balance_commitment = spend.ak;
    assert_eq!(spend_integrity(&spend, &forged), violation(IntegrityCheck::BalanceCommitment));

    let mut other_note = spend;
    other_note.plan.note.value.amount += 1;
    assert_eq!(spend_integrity(&other_note, &public), violation(IntegrityCheck::NoteCommitment));
    let mut other_position = spend;
    other_position.auth_path.position = 7;
    assert_eq!(spend_integrity(&other_position, &public), violation(IntegrityCheck::Nullifier));
    let mut other_key = spend;
    other_key.nk = NullifierKey(fq(b"other").to_bytes());
    assert_eq!(
        spend_integrity(&other_key, &public),
        violation(IntegrityCheck::DiversifiedAddress)
    );
}

#[test]
fn the_first_violation_decides() {
    let mut spend = own_spend();
    spend.plan.note.address.diversified_generator =
        decaf377::Element::IDENTITY.vartime_compress().0;
    spend.auth_path.commitment = spend.plan.note.commit();
    let mut public = spend.public().unwrap();
    assert_eq!(spend_integrity(&spend, &public), violation(IntegrityCheck::DiversifiedBasepoint));
    public.balance_commitment[0] ^= 1;
    public.nullifier[0] ^= 1;
    assert_eq!(spend_integrity(&spend, &public), violation(IntegrityCheck::BalanceCommitment));
    spend.plan.note.address.diversified_generator = [0xff; 32];
    spend.auth_path.commitment = spend.plan.note.commit();
    let public = SpendPublic { balance_commitment: spend.public().unwrap().balance_commitment, ..public };
    assert_eq!(
        spend_integrity(&spend, &public),
        Err(Error::MalformedInput { what: Malformed::GroupElement })
    );
}
