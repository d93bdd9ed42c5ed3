//! What a plan needs besides itself to become a transaction: signatures from
//! the custodian and inclusion proofs from the commitment accumulator.

use vstd::prelude::*;
use crate::bytes::{bytes32_eq, le_value};
use crate::field::{base_from_le_bytes_mod_order, base_modulus, base_reduce, lemma_base_reduce_canonical};
use crate::random::random_bytes32;

verus! {

/// The number of sibling hashes on the path from a commitment to the root of
/// the accumulator.
pub const AUTH_PATH_LEN: usize = 72;

/// A proof that a commitment is in the accumulator, at a position, under a
/// root.
#[derive(Clone, Copy, Debug, PartialEq, Eq)]
pub struct Proof {
    pub commitment: [u8; 32],
    pub position: u64,
    pub auth_path: [[u8; 32]; 72],
}

/// The signatures that authorize a plan, in the order of the plan's spends
/// and of its delegator votes.
#[derive(Clone, Debug, PartialEq, Eq)]
pub struct AuthorizationData {
    pub spend_auths: Vec<[u8; 64]>,
    pub delegator_vote_auths: Vec<[u8; 64]>,
}

/// The root of the accumulator at one moment, and inclusion proofs that were
/// all taken under that root.
#[derive(Clone, Debug, PartialEq, Eq)]
pub struct WitnessData {
    pub anchor: [u8; 32],
    pub state_commitment_proofs: Vec<Proof>,
}

/// The first proof among `proofs` that is a proof for `commitment`.
pub open spec fn find_proof(proofs: Seq<Proof>, commitment: [u8; 32]) -> Option<Proof>
    decreases proofs.len(),
{
    if proofs.len() == 0 {
        None
    } else if proofs[0].commitment == commitment {
        Some(proofs[0])
    } else {
        find_proof(proofs.drop_first(), commitment)
    }
}

/// A proof that is found is a proof for the commitment that was looked up, and
/// it is one of the proofs that were searched.
pub proof fn lemma_find_proof_sound(proofs: Seq<Proof>, commitment: [u8; 32])
    ensures
        match find_proof(proofs, commitment) {
            Some(proof) => proof.commitment == commitment && proofs.contains(proof),
            None => forall|i: int| 0 <= i < proofs.len() ==> proofs[i].commitment != commitment,
        },
    decreases proofs.len(),
{
    if proofs.len() > 0 {
        if proofs[0].commitment == commitment {
            assert(proofs.contains(proofs[0]));
        } else {
            let rest = proofs.drop_first();
            lemma_find_proof_sound(rest, commitment);
            match find_proof(rest, commitment) {
                Some(proof) => {
                    let i = choose|i: int| 0 <= i < rest.len() && rest[i] == proof;
                    assert(proofs[i + 1] == proof);
                },
                None => {
                    assert forall|i: int| 0 <= i < proofs.len() implies proofs[i].commitment
                        != commitment by {
                        if i > 0 {
                            assert(rest[i - 1] == proofs[i]);
                        }
                    }
                },
            }
        }
    }
}

/// Searching a list with one more proof at its end.
pub proof fn lemma_find_proof_push(proofs: Seq<Proof>, added: Proof, commitment: [u8; 32])
    ensures
        find_proof(proofs.push(added), commitment) == match find_proof(proofs, commitment) {
            Some(proof) => Some(proof),
            None => if added.commitment == commitment {
                Some(added)
            } else {
                None
            },
        },
    decreases proofs.len(),
{
    if proofs.len() == 0 {
        assert(proofs.push(added).drop_first() =~= proofs);
    } else {
        assert(proofs.push(added).drop_first() =~= proofs.drop_first().push(added));
        if proofs[0].commitment != commitment {
            lemma_find_proof_push(proofs.drop_first(), added, commitment);
        }
    }
}

/// Searching a list in which the proof at `index` was replaced by another
/// proof for the same commitment.
pub proof fn lemma_find_proof_update(
    proofs: Seq<Proof>,
    index: int,
    replacement: Proof,
    commitment: [u8; 32],
)
    requires
        0 <= index < proofs.len(),
        proofs[index].commitment == replacement.commitment,
        forall|i: int| 0 <= i < index ==> proofs[i].commitment != replacement.commitment,
    ensures
        find_proof(proofs.update(index, replacement), commitment) == if commitment
            == replacement.commitment {
            Some(replacement)
        } else {
            find_proof(proofs, commitment)
        },
    decreases proofs.len(),
{
    let updated = proofs.update(index, replacement);
    if index == 0 {
        assert(updated.drop_first() =~= proofs.drop_first());
    } else {
        assert(updated.drop_first() =~= proofs.drop_first().update(index - 1, replacement));
        assert(updated[0] == proofs[0]);
        assert forall|i: int| 0 <= i < index - 1 implies proofs.drop_first()[i].commitment
            != replacement.commitment by {
            assert(proofs.drop_first()[i] == proofs[i + 1]);
        }
        lemma_find_proof_update(proofs.drop_first(), index - 1, replacement, commitment);
    }
}

impl Proof {
    /// The commitment that this proof is about.
    pub fn commitment(&self) -> (commitment: [u8; 32])
        ensures
            commitment == self.commitment,
    {
        self.commitment
    }

    /// Makes up a proof for `commitment` that comes from no accumulator: its
    /// position and its path are what [`Proof::from_randomness`] makes of 73
    /// draws of 32 random bytes. Nobody checks such a proof against a root.
    /// `None` where the operating system gives no randomness.
    pub fn dummy(commitment: [u8; 32]) -> (proof: Option<Proof>)
        ensures
            proof is Some ==> {
                &&& proof.unwrap().commitment == commitment
                &&& proof.unwrap().spec_path_is_canonical()
                &&& exists|seed: [u8; 32], siblings: [[u8; 32]; 72]|
                    #[trigger] proof.unwrap().spec_made_from(commitment, seed, siblings)
            },
    {
        let seed = match random_bytes32() {
            Some(bytes) => bytes,
            None => {
                return None;
            },
        };
        let mut siblings = [[0u8; 32]; 72];
        let mut level: usize = 0;
        while level < AUTH_PATH_LEN
            invariant
                level <= AUTH_PATH_LEN,
            decreases AUTH_PATH_LEN - level,
        {
            match random_bytes32() {
                Some(bytes) => {
                    siblings[level] = bytes;
                },
                None => {
                    return None;
                },
            }
            level += 1;
        }
        let made = Proof::from_randomness(commitment, &seed, &siblings);
        assert(made.spec_made_from(commitment, seed, siblings));
        Some(made)
    }

    /// Whether this proof is the dummy proof for `commitment` that is made of
    /// the random bytes `seed` and `siblings`: its position is the number
    /// that the first eight bytes of `seed` spell, most significant first, and
    /// each sibling on its path is one of `siblings`, reduced into the base
    /// field.
    pub open spec fn spec_made_from(
        self,
        commitment: [u8; 32],
        seed: [u8; 32],
        siblings: [[u8; 32]; 72],
    ) -> bool {
        &&& self.commitment == commitment
        &&& self.position == spec_be_u64(seed@.take(8))
        &&& forall|i: int|
            0 <= i < 72 ==> (#[trigger] self.auth_path@[i])@ == base_reduce(siblings@[i]@)
    }

    /// Whether every sibling on the path of this proof is the canonical
    /// encoding of a base field element.
    pub open spec fn spec_path_is_canonical(self) -> bool {
        forall|i: int| 0 <= i < 72 ==> le_value((#[trigger] self.auth_path@[i])@) < base_modulus()
    }

    /// Makes the dummy proof for `commitment` out of random bytes that were
    /// drawn already.
    pub fn from_randomness(commitment: [u8; 32], seed: &[u8; 32], siblings: &[[u8; 32]; 72]) -> (proof:
        Proof)
        ensures
            proof.spec_made_from(commitment, *seed, *siblings),
            proof.spec_path_is_canonical(),
    {
        let mut position: u64 = 0;
        let mut i: usize = 0;
        assert(seed@.take(8).take(0) =~= Seq::<u8>::empty());
        while i < 8
            invariant
                i <= 8,
                position == spec_be_u64(seed@.take(8).take(i as int)),
            decreases 8 - i,
        {
            proof {
                let first = seed@.take(8);
                assert(first.take(i as int + 1).drop_last() =~= first.take(i as int));
                assert(first.take(i as int + 1).last() == seed@[i as int]);
            }
            position = (position << 8) | (seed[i] as u64);
            i += 1;
        }
        assert(seed@.take(8).take(8) =~= seed@.take(8));
        let mut auth_path = [[0u8; 32]; 72];
        let mut level: usize = 0;
        while level < AUTH_PATH_LEN
            invariant
                level <= AUTH_PATH_LEN,
                forall|j: int|
                    0 <= j < level ==> (#[trigger] auth_path@[j])@ == base_reduce(siblings@[j]@),
            decreases AUTH_PATH_LEN - level,
        {
            let ghost before = auth_path@;
            auth_path[level] = base_from_le_bytes_mod_order(siblings[level].as_slice());
            assert forall|j: int| 0 <= j < level + 1 implies (#[trigger] auth_path@[j])@
                == base_reduce(siblings@[j]@) by {
                if j < level {
                    assert(auth_path@[j] == before[j]);
                }
            }
            level += 1;
        }
        let proof = Proof { commitment, position, auth_path };
        assert forall|j: int| 0 <= j < 72 implies le_value((#[trigger] proof.auth_path@[j])@)
            < base_modulus() by {
            lemma_base_reduce_canonical(siblings@[j]@);
        }
        proof
    }
}

/// The number that `bytes` spell, most significant byte first, in 64 bits.
pub open spec fn spec_be_u64(bytes: Seq<u8>) -> u64
    decreases bytes.len(),
{
    if bytes.len() == 0 {
        0
    } else {
        (spec_be_u64(bytes.drop_last()) << 8) | (bytes.last() as u64)
    }
}

impl WitnessData {
    /// The proof that these witness data hold for `commitment`.
    pub open spec fn spec_get(self, commitment: [u8; 32]) -> Option<Proof> {
        find_proof(self.state_commitment_proofs@, commitment)
    }

    /// Looks up the inclusion proof for `commitment`.
    pub fn get(&self, commitment: &[u8; 32]) -> (found: Option<Proof>)
        ensures
            found == self.spec_get(*commitment),
    {
        let n = self.state_commitment_proofs.len();
        let mut i: usize = 0;
        assert(self.state_commitment_proofs@.skip(0) =~= self.state_commitment_proofs@);
        while i < n
            invariant
                i <= n,
                n == self.state_commitment_proofs@.len(),
                self.spec_get(*commitment) == find_proof(
                    self.state_commitment_proofs@.skip(i as int),
                    *commitment,
                ),
            decreases n - i,
        {
            let proof = self.state_commitment_proofs[i];
            if bytes32_eq(&proof.commitment, commitment) {
                return Some(proof);
            }
            assert(self.state_commitment_proofs@.skip(i as int).drop_first()
                =~= self.state_commitment_proofs@.skip(i as int + 1));
            i += 1;
        }
        None
    }

    /// Records `proof` as the proof for its commitment, in place of any proof
    /// that was held for that commitment before.
    pub fn add_proof(&mut self, proof: Proof)
        ensures
            final(self).anchor == old(self).anchor,
            forall|commitment: [u8; 32]|
                #[trigger] final(self).spec_get(commitment) == if commitment == proof.commitment {
                    Some(proof)
                } else {
                    old(self).spec_get(commitment)
                },
    {
        let n = self.state_commitment_proofs.len();
        let mut i: usize = 0;
        while i < n
            invariant
                i <= n,
                n == self.state_commitment_proofs@.len(),
                *self == *old(self),
                forall|j: int| 0 <= j < i ==> self.state_commitment_proofs@[j].commitment
                    != proof.commitment,
            decreases n - i,
        {
            if bytes32_eq(&self.state_commitment_proofs[i].commitment, &proof.commitment) {
                let ghost before = self.state_commitment_proofs@;
                self.state_commitment_proofs.set(i, proof);
                assert forall|commitment: [u8; 32]|
                    #[trigger] self.spec_get(commitment) == if commitment == proof.commitment {
                        Some(proof)
                    } else {
                        old(self).spec_get(commitment)
                    } by {
                    lemma_find_proof_update(before, i as int, proof, commitment);
                }
                return ;
            }
            i += 1;
        }
        let ghost before = self.state_commitment_proofs@;
        self.state_commitment_proofs.push(proof);
        assert forall|commitment: [u8; 32]|
            #[trigger] self.spec_get(commitment) == if commitment == proof.commitment {
                Some(proof)
            } else {
                old(self).spec_get(commitment)
            } by {
            lemma_find_proof_push(before, proof, commitment);
            lemma_find_proof_sound(before, commitment);
        }
    }
}

} // verus!
