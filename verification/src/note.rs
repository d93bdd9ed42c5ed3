//! Notes, the values they carry and the addresses they are sent to.

use vstd::prelude::*;
use crate::bytes::{le_bytes, u128_to_bytes32};
use crate::domain::{notecommit_domain_separator, notecommit_label, spec_domain_separator};
use crate::hash::{poseidon_6, poseidon_hash_6};

verus! {

/// An amount of one asset. The asset is named by a base field element.
#[derive(Clone, Copy, Debug, PartialEq, Eq)]
pub struct Value {
    pub amount: u64,
    pub asset_id: [u8; 32],
}

/// A diversified payment address.
#[derive(Clone, Copy, Debug, PartialEq, Eq)]
pub struct Address {
    /// The encoding of the diversified generator.
    pub diversified_generator: [u8; 32],
    /// The encoding of the transmission key.
    pub transmission_key: [u8; 32],
    /// The key under which detection clues for this address are made.
    pub clue_key: [u8; 32],
}

/// A shielded note: a value, the address that controls it, and the blinding
/// factor of its commitment.
#[derive(Clone, Copy, Debug, PartialEq, Eq)]
pub struct Note {
    pub value: Value,
    pub note_blinding: [u8; 32],
    pub address: Address,
}

/// The commitment to a note with the given fields: the Poseidon hash, under
/// the domain separator of note commitments, of the blinding factor, the
/// amount, the asset, the diversified generator, the transmission key and the
/// clue key, each read as a base field element.
pub open spec fn spec_commitment(
    note_blinding: Seq<u8>,
    value: Value,
    diversified_generator: Seq<u8>,
    transmission_key: Seq<u8>,
    clue_key: Seq<u8>,
) -> Seq<u8> {
    poseidon_6(
        spec_domain_separator(notecommit_label()),
        note_blinding,
        le_bytes(value.amount as nat, 32),
        value.asset_id@,
        diversified_generator,
        transmission_key,
        clue_key,
    )
}

/// Computes the commitment to a note with the given fields.
pub fn commitment(
    note_blinding: &[u8; 32],
    value: &Value,
    diversified_generator: &[u8; 32],
    transmission_key: &[u8; 32],
    clue_key: &[u8; 32],
) -> (cm: [u8; 32])
    ensures
        cm@ == spec_commitment(
            note_blinding@,
            *value,
            diversified_generator@,
            transmission_key@,
            clue_key@,
        ),
{
    let separator = notecommit_domain_separator();
    let amount = u128_to_bytes32(value.amount as u128);
    let inputs: [[u8; 32]; 6] = [
        *note_blinding,
        amount,
        value.asset_id,
        *diversified_generator,
        *transmission_key,
        *clue_key,
    ];
    poseidon_hash_6(&separator, &inputs)
}

impl Note {
    /// The commitment to this note.
    pub open spec fn spec_commit(self) -> Seq<u8> {
        spec_commitment(
            self.note_blinding@,
            self.value,
            self.address.diversified_generator@,
            self.address.transmission_key@,
            self.address.clue_key@,
        )
    }

    /// Computes the commitment to this note.
    pub fn commit(&self) -> (cm: [u8; 32])
        ensures
            cm@ == self.spec_commit(),
    {
        commitment(
            &self.note_blinding,
            &self.value,
            &self.address.diversified_generator,
            &self.address.transmission_key,
            &self.address.clue_key,
        )
    }

    /// The amount the note carries.
    pub fn amount(&self) -> (amount: u64)
        ensures
            amount == self.value.amount,
    {
        self.value.amount
    }

    /// Whether the note carries nothing, as the note of a dummy spend does.
    pub fn is_dummy(&self) -> (dummy: bool)
        ensures
            dummy == (self.value.amount == 0),
    {
        self.value.amount == 0
    }
}

} // verus!
