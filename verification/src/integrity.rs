//! Integrity checks: whether the private data behind an action agrees with
//! what the action shows in public.
//!
//! Each check recomputes one public value from the private data and compares
//! it with the value that was claimed.

use vstd::prelude::*;
use crate::action::Spend;
use crate::balance::{spec_blinding_generator, spec_commit_from, Balance, Imbalance};
use crate::bytes::bytes32_eq;
use crate::error::{Error, IntegrityCheck, Malformed};
use crate::group::{element_is_identity, element_mul, is_identity};
use crate::keys::{
    spec_derive_nullifier, spec_incoming_viewing_key, FullViewingKey, NullifierKey,
};
use crate::note::Note;
use crate::rdsa::{randomize_verification_key, randomized_key};

verus! {

/// The verdict of a check that has found the claimed value to be `held`.
pub open spec fn verdict(held: bool, check: IntegrityCheck) -> Result<(), Error> {
    if held {
        Ok(())
    } else {
        Err(Error::IntegrityViolation { check })
    }
}

/// Gives the verdict of a check.
fn conclude(held: bool, check: IntegrityCheck) -> (r: Result<(), Error>)
    ensures
        r == verdict(held, check),
{
    if held {
        Ok(())
    } else {
        Err(Error::IntegrityViolation { check })
    }
}

/// Whether `public_nullifier` is the nullifier of the note committed to by
/// `note_commitment` at `position`, under the nullifier key `nk`.
pub open spec fn nullifier_holds(
    public_nullifier: Seq<u8>,
    nk: NullifierKey,
    position: u64,
    note_commitment: Seq<u8>,
) -> bool {
    public_nullifier == spec_derive_nullifier(nk.0@, position, note_commitment)
}

/// Checks the integrity of the nullifier.
pub fn nullifier_integrity(
    public_nullifier: [u8; 32],
    nk: NullifierKey,
    position: u64,
    note_commitment: [u8; 32],
) -> (r: Result<(), Error>)
    ensures
        r == verdict(
            nullifier_holds(public_nullifier@, nk, position, note_commitment@),
            IntegrityCheck::Nullifier,
        ),
{
    let derived = nk.derive_nullifier(position, &note_commitment);
    conclude(bytes32_eq(&public_nullifier, &derived), IntegrityCheck::Nullifier)
}

/// Checks the integrity of the note commitment.
pub fn note_commitment_integrity(note: Note, note_commitment: [u8; 32]) -> (r: Result<(), Error>)
    ensures
        r == verdict(note_commitment@ == note.spec_commit(), IntegrityCheck::NoteCommitment),
{
    let note_commitment_test = crate::note::commitment(
        &note.note_blinding,
        &note.value,
        &note.address.diversified_generator,
        &note.address.transmission_key,
        &note.address.clue_key,
    );
    conclude(bytes32_eq(&note_commitment, &note_commitment_test), IntegrityCheck::NoteCommitment)
}

/// Checks the integrity of the balance commitment.
pub fn balance_commitment_integrity(
    balance_commitment: [u8; 32],
    value_blinding: [u8; 32],
    balance: Balance,
) -> (r: Result<(), Error>)
    ensures
        r == verdict(
            balance.spec_commit(value_blinding@) == Some(balance_commitment@),
            IntegrityCheck::BalanceCommitment,
        ),
{
    let held = match balance.commit(&value_blinding) {
        Some(commitment) => bytes32_eq(&balance_commitment, &commitment),
        None => false,
    };
    conclude(held, IntegrityCheck::BalanceCommitment)
}

/// Whether the address of `note` is derived from the viewing key made of `ak`
/// and `nk`: its transmission key is its diversified generator times the
/// incoming viewing key.
pub open spec fn diversified_address_holds(ak: Seq<u8>, nk: NullifierKey, note: Note) -> bool {
    element_mul(spec_incoming_viewing_key(ak, nk.0@), note.address.diversified_generator@) == Some(
        note.address.transmission_key@,
    )
}

/// Checks the integrity of a diversified address given a note.
pub fn diversified_address_integrity(ak: [u8; 32], nk: NullifierKey, note: Note) -> (r: Result<
    (),
    Error,
>)
    ensures
        r == verdict(diversified_address_holds(ak@, nk, note), IntegrityCheck::DiversifiedAddress),
{
    let fvk = FullViewingKey::from_components(ak, nk);
    let ivk = fvk.incoming();
    let held = match ivk.diversified_public(&note.address.diversified_generator) {
        Some(transmission_key) => bytes32_eq(&note.address.transmission_key, &transmission_key),
        None => false,
    };
    conclude(held, IntegrityCheck::DiversifiedAddress)
}

/// What [`diversified_basepoint_not_identity`] returns for `point`.
pub open spec fn spec_basepoint_not_identity(point: Seq<u8>) -> Result<(), Error> {
    match element_is_identity(point) {
        None => Err(Error::MalformedInput { what: Malformed::GroupElement }),
        Some(identity) => verdict(!identity, IntegrityCheck::DiversifiedBasepoint),
    }
}

/// Checks that the diversified basepoint is not the identity.
///
/// The group has prime order, so there is no need to look for points of small
/// order: the identity is the only one to refuse. Bytes that encode no element
/// at all are malformed.
pub fn diversified_basepoint_not_identity(point: [u8; 32]) -> (r: Result<(), Error>)
    ensures
        r == spec_basepoint_not_identity(point@),
{
    match is_identity(&point) {
        None => Err(Error::MalformedInput { what: Malformed::GroupElement }),
        Some(identity) => conclude(!identity, IntegrityCheck::DiversifiedBasepoint),
    }
}

/// Checks that the randomized verification key `rk` is the spend verification
/// key `ak` randomized by `spend_auth_randomizer`.
pub fn rk_integrity(spend_auth_randomizer: [u8; 32], rk: [u8; 32], ak: [u8; 32]) -> (r: Result<
    (),
    Error,
>)
    ensures
        r == verdict(
            randomized_key(ak@, spend_auth_randomizer@) == Some(rk@),
            IntegrityCheck::RandomizedKey,
        ),
{
    let held = match randomize_verification_key(&ak, &spend_auth_randomizer) {
        Some(rk_test) => bytes32_eq(&rk, &rk_test),
        None => false,
    };
    conclude(held, IntegrityCheck::RandomizedKey)
}

/// `bytes` with one bit flipped: bit `bit % 8` of byte `bit / 8`.
pub open spec fn flip_bit(bytes: Seq<u8>, bit: nat) -> Seq<u8> {
    bytes.update((bit / 8) as int, bytes[(bit / 8) as int] ^ (1u8 << ((bit % 8) as u8)))
}

/// At most one nullifier passes the nullifier check for a given key, position
/// and commitment.
pub proof fn lemma_nullifier_unique(
    first: Seq<u8>,
    second: Seq<u8>,
    nk: NullifierKey,
    position: u64,
    note_commitment: Seq<u8>,
)
    requires
        nullifier_holds(first, nk, position, note_commitment),
        first != second,
    ensures
        !nullifier_holds(second, nk, position, note_commitment),
{
}

/// A nullifier that passes the nullifier check fails it once any single bit of
/// it is flipped.
pub proof fn lemma_nullifier_bit_flip_fails(
    public_nullifier: Seq<u8>,
    bit: nat,
    nk: NullifierKey,
    position: u64,
    note_commitment: Seq<u8>,
)
    requires
        bit < 8 * public_nullifier.len(),
        nullifier_holds(public_nullifier, nk, position, note_commitment),
    ensures
        !nullifier_holds(flip_bit(public_nullifier, bit), nk, position, note_commitment),
{
    let index = (bit / 8) as int;
    let old_byte = public_nullifier[index];
    let shift = (bit % 8) as u8;
    assert(old_byte ^ (1u8 << shift) != old_byte) by (bit_vector)
        requires
            shift < 8,
    ;
    assert(flip_bit(public_nullifier, bit)[index] != public_nullifier[index]);
}

/// What a spend shows in public: the commitment to the value it spends, the
/// nullifier of its note, and the key under which it is authorized.
#[derive(Clone, Copy, Debug, PartialEq, Eq)]
pub struct SpendPublic {
    pub balance_commitment: [u8; 32],
    pub nullifier: [u8; 32],
    pub rk: [u8; 32],
}

/// The first of two verdicts that is a failure, or success.
pub open spec fn and_then(first: Result<(), Error>, second: Result<(), Error>) -> Result<(), Error> {
    match first {
        Ok(()) => second,
        Err(e) => Err(e),
    }
}

/// The value that a spend provides, as a balance of one entry.
pub open spec fn spec_spend_balance(spend: Spend) -> Seq<Imbalance> {
    seq![Imbalance { value: spend.plan.note.value, required: false }]
}

/// The commitment to the value of a spend under its value blinding.
pub open spec fn spec_spend_commitment(spend: Spend) -> Option<Seq<u8>> {
    spec_commit_from(
        spec_spend_balance(spend),
        element_mul(spend.plan.value_blinding@, spec_blinding_generator()),
    )
}

/// The verdict on a spend and what it shows in public: the first check that
/// fails, of the checks that
///
/// - the note is the one that the inclusion proof is about,
/// - the balance commitment commits to the value of the note,
/// - the diversified generator of the note is not the identity,
/// - the key of the spend is the spend verification key, randomized,
/// - the address of the note is derived from the viewing key,
/// - the nullifier is that of the note at its position.
pub open spec fn spec_spend_integrity(spend: Spend, public: SpendPublic) -> Result<(), Error> {
    and_then(
        verdict(
            spend.auth_path.commitment@ == spend.plan.note.spec_commit(),
            IntegrityCheck::NoteCommitment,
        ),
        and_then(
            verdict(
                spec_spend_commitment(spend) == Some(public.balance_commitment@),
                IntegrityCheck::BalanceCommitment,
            ),
            and_then(
                spec_basepoint_not_identity(spend.plan.note.address.diversified_generator@),
                and_then(
                    verdict(
                        randomized_key(spend.ak@, spend.plan.randomizer@) == Some(public.rk@),
                        IntegrityCheck::RandomizedKey,
                    ),
                    and_then(
                        verdict(
                            diversified_address_holds(spend.ak@, spend.nk, spend.plan.note),
                            IntegrityCheck::DiversifiedAddress,
                        ),
                        verdict(
                            nullifier_holds(
                                public.nullifier@,
                                spend.nk,
                                spend.auth_path.position,
                                spend.auth_path.commitment@,
                            ),
                            IntegrityCheck::Nullifier,
                        ),
                    ),
                ),
            ),
        ),
    )
}

/// Checks a spend against what it shows in public. An integrity violation is
/// final: the first check that fails decides, and nothing is mended.
pub fn spend_integrity(spend: &Spend, public: &SpendPublic) -> (r: Result<(), Error>)
    ensures
        r == spec_spend_integrity(*spend, *public),
{
    let note = spend.plan.note;
    match note_commitment_integrity(note, spend.auth_path.commitment) {
        Ok(()) => {},
        Err(e) => {
            return Err(e);
        },
    }
    let balance = Balance {
        imbalances: vec![Imbalance { value: note.value, required: false }],
    };
    assert(balance.imbalances@ =~= spec_spend_balance(*spend));
    match balance_commitment_integrity(
        public.balance_commitment,
        spend.plan.value_blinding,
        balance,
    ) {
        Ok(()) => {},
        Err(e) => {
            return Err(e);
        },
    }
    match diversified_basepoint_not_identity(note.address.diversified_generator) {
        Ok(()) => {},
        Err(e) => {
            return Err(e);
        },
    }
    match rk_integrity(spend.plan.randomizer, public.rk, spend.ak) {
        Ok(()) => {},
        Err(e) => {
            return Err(e);
        },
    }
    match diversified_address_integrity(spend.ak, spend.nk, note) {
        Ok(()) => {},
        Err(e) => {
            return Err(e);
        },
    }
    nullifier_integrity(
        public.nullifier,
        spend.nk,
        spend.auth_path.position,
        spend.auth_path.commitment,
    )
}

impl Spend {
    /// Whether `public` is what this spend shows in public.
    pub open spec fn spec_shows(self, public: SpendPublic) -> bool {
        &&& spec_spend_commitment(self) == Some(public.balance_commitment@)
        &&& randomized_key(self.ak@, self.plan.randomizer@) == Some(public.rk@)
        &&& public.nullifier@ == spec_derive_nullifier(
            self.nk.0@,
            self.auth_path.position,
            self.auth_path.commitment@,
        )
    }

    /// Derives what this spend shows in public: the commitment to its value
    /// under its value blinding, the nullifier of its note at the position of
    /// its inclusion proof, and its spend verification key under its
    /// randomizer. `None` where the group refuses the spend verification key.
    pub fn public(&self) -> (public: Option<SpendPublic>)
        ensures
            match public {
                Some(public) => self.spec_shows(public),
                None => spec_spend_commitment(*self) is None || randomized_key(
                    self.ak@,
                    self.plan.randomizer@,
                ) is None,
            },
    {
        let balance = Balance {
            imbalances: vec![Imbalance { value: self.plan.note.value, required: false }],
        };
        assert(balance.imbalances@ =~= spec_spend_balance(*self));
        let balance_commitment = match balance.commit(&self.plan.value_blinding) {
            Some(commitment) => commitment,
            None => {
                return None;
            },
        };
        let rk = match randomize_verification_key(&self.ak, &self.plan.randomizer) {
            Some(rk) => rk,
            None => {
                return None;
            },
        };
        let nullifier = self.nk.derive_nullifier(
            self.auth_path.position,
            &self.auth_path.commitment,
        );
        Some(SpendPublic { balance_commitment, nullifier, rk })
    }
}

/// What a spend shows of itself passes every check that bears on what is
/// shown. The spend as a whole passes if, besides, its proof is about its
/// note, the diversified generator of the note is not the identity, and the
/// address of the note is derived from the viewing key of the spender.
pub proof fn lemma_own_public_passes(spend: Spend, public: SpendPublic)
    requires
        spend.spec_shows(public),
        spend.auth_path.commitment@ == spend.plan.note.spec_commit(),
        element_is_identity(spend.plan.note.address.diversified_generator@) == Some(false),
        diversified_address_holds(spend.ak@, spend.nk, spend.plan.note),
    ensures
        spec_spend_integrity(spend, public) == Ok::<(), Error>(()),
{
}

/// A spend does not pass with another nullifier than its own, whatever else
/// it shows.
pub proof fn lemma_foreign_nullifier_fails(spend: Spend, public: SpendPublic, forged: [u8; 32])
    requires
        spec_spend_integrity(spend, public) == Ok::<(), Error>(()),
        forged != public.nullifier,
    ensures
        spec_spend_integrity(
            spend,
            SpendPublic {
                balance_commitment: public.balance_commitment,
                nullifier: forged,
                rk: public.rk,
            },
        ) == Err::<(), Error>(Error::IntegrityViolation { check: IntegrityCheck::Nullifier }),
{
    assert(forged@ != public.nullifier@) by {
        if forged@ == public.nullifier@ {
            assert(forged =~= public.nullifier);
        }
    }
}

} // verus!
