//! Viewing keys and what is derived from them.

use vstd::prelude::*;
use crate::bytes::{bytes32, le_bytes, lemma_bytes32, u128_to_bytes32};
use crate::domain::{
    ivk_domain_separator, ivk_label, nullifier_domain_separator, nullifier_label,
    spec_domain_separator,
};
use crate::field::{scalar_from_le_bytes_mod_order, scalar_reduce};
use crate::group::{element_mul, opt_bytes, scalar_mul};
use crate::hash::{blake2b_512_keyed, blake2b_keyed, poseidon_2, poseidon_3, poseidon_hash_2, poseidon_hash_3};

verus! {

/// The key from which nullifiers are derived: a base field element.
#[derive(Clone, Copy, Debug, PartialEq, Eq)]
pub struct NullifierKey(pub [u8; 32]);

/// The key that detects and decrypts what is sent to its addresses: a scalar.
#[derive(Clone, Copy, Debug, PartialEq, Eq)]
pub struct IncomingViewingKey {
    pub ivk: [u8; 32],
}

/// The key under which a sender can recover what it has sent.
#[derive(Clone, Copy, Debug, PartialEq, Eq)]
pub struct OutgoingViewingKey(pub [u8; 32]);

/// The capability to view everything an account does: the spend verification
/// key `ak` and the nullifier key `nk`. The other viewing keys are derived from
/// these two.
#[derive(Clone, Copy, Debug, PartialEq, Eq)]
pub struct FullViewingKey {
    pub ak: [u8; 32],
    pub nk: NullifierKey,
}

/// The nullifier of the note committed to by `note_commitment` at `position`
/// in the accumulator, under the nullifier key `nk`.
pub open spec fn spec_derive_nullifier(nk: Seq<u8>, position: u64, note_commitment: Seq<u8>) -> Seq<
    u8,
> {
    poseidon_3(
        spec_domain_separator(nullifier_label()),
        nk,
        note_commitment,
        le_bytes(position as nat, 32),
    )
}

/// The scalar of the incoming viewing key that belongs to `ak` and `nk`.
pub open spec fn spec_incoming_viewing_key(ak: Seq<u8>, nk: Seq<u8>) -> Seq<u8> {
    scalar_reduce(poseidon_2(spec_domain_separator(ivk_label()), nk, ak))
}

/// The personalization under which viewing keys are expanded.
pub open spec fn expand_label() -> Seq<u8> {
    seq![
        0x50u8, 0x65, 0x6e, 0x75, 0x6d, 0x62, 0x72, 0x61, 0x5f, 0x45, 0x78, 0x70, 0x6e, 0x64, 0x56,
        0x4b,
    ]
}

/// The outgoing viewing key that belongs to `ak` and `nk`: the first half of
/// the keyed digest of `ak` under `nk`.
pub open spec fn spec_outgoing_viewing_key(ak: Seq<u8>, nk: Seq<u8>) -> Seq<u8> {
    blake2b_512_keyed(expand_label(), nk, ak).subrange(0, 32)
}

impl NullifierKey {
    /// Derives the nullifier of a note from its position and its commitment.
    pub fn derive_nullifier(&self, position: u64, note_commitment: &[u8; 32]) -> (nf: [u8; 32])
        ensures
            nf@ == spec_derive_nullifier(self.0@, position, note_commitment@),
    {
        let separator = nullifier_domain_separator();
        let position = u128_to_bytes32(position as u128);
        poseidon_hash_3(&separator, &self.0, note_commitment, &position)
    }
}

impl IncomingViewingKey {
    /// Derives the transmission key of the address with the diversified
    /// generator `diversified_generator`: the generator times this key.
    /// `None` where the bytes encode no group element.
    pub fn diversified_public(&self, diversified_generator: &[u8; 32]) -> (pk: Option<[u8; 32]>)
        ensures
            opt_bytes(pk) == element_mul(self.ivk@, diversified_generator@),
    {
        scalar_mul(&self.ivk, diversified_generator)
    }
}

impl FullViewingKey {
    /// Puts a full viewing key together from its two components.
    pub fn from_components(ak: [u8; 32], nk: NullifierKey) -> (fvk: FullViewingKey)
        ensures
            fvk.ak == ak,
            fvk.nk == nk,
    {
        FullViewingKey { ak, nk }
    }

    /// The spend verification key.
    pub fn spend_verification_key(&self) -> (ak: &[u8; 32])
        ensures
            *ak == self.ak,
    {
        &self.ak
    }

    /// The nullifier key.
    pub fn nullifier_key(&self) -> (nk: &NullifierKey)
        ensures
            *nk == self.nk,
    {
        &self.nk
    }

    /// Derives the incoming viewing key.
    pub fn incoming(&self) -> (ivk: IncomingViewingKey)
        ensures
            ivk.ivk@ == spec_incoming_viewing_key(self.ak@, self.nk.0@),
    {
        let separator = ivk_domain_separator();
        let ivk_mod_q = poseidon_hash_2(&separator, &self.nk.0, &self.ak);
        IncomingViewingKey { ivk: scalar_from_le_bytes_mod_order(&ivk_mod_q) }
    }

    /// The outgoing viewing key that belongs to this key.
    pub open spec fn spec_outgoing(self) -> OutgoingViewingKey {
        OutgoingViewingKey(bytes32(spec_outgoing_viewing_key(self.ak@, self.nk.0@)))
    }

    /// Derives the outgoing viewing key.
    pub fn outgoing(&self) -> (ovk: OutgoingViewingKey)
        ensures
            ovk.0@ == spec_outgoing_viewing_key(self.ak@, self.nk.0@),
            ovk == self.spec_outgoing(),
    {
        let label: [u8; 16] = [
            0x50, 0x65, 0x6e, 0x75, 0x6d, 0x62, 0x72, 0x61, 0x5f, 0x45, 0x78, 0x70, 0x6e, 0x64,
            0x56, 0x4b,
        ];
        assert(label@ =~= expand_label());
        let digest = blake2b_keyed(label.as_slice(), self.nk.0.as_slice(), self.ak.as_slice());
        let mut ovk = [0u8; 32];
        let mut i: usize = 0;
        while i < 32
            invariant
                i <= 32,
                forall|j: int| 0 <= j < i ==> ovk@[j] == digest@[j],
            decreases 32 - i,
        {
            ovk[i] = digest[i];
            i += 1;
        }
        assert(ovk@ =~= digest@.subrange(0, 32));
        proof {
            lemma_bytes32(ovk);
        }
        OutgoingViewingKey(ovk)
    }
}

} // verus!
