//! Randomizable signatures over the group, with keys and signatures held as
//! bytes.
//!
//! Signing and verification are `decaf377-rdsa`'s. The keys and the verdict of
//! verification are functions of their arguments and are named by functions
//! without a body.

use vstd::prelude::*;
use crate::group::opt_bytes;

verus! {

/// The spend verification key `ak` randomized by `randomizer`; `None` where
/// `ak` encodes no key.
pub uninterp spec fn randomized_key(ak: Seq<u8>, randomizer: Seq<u8>) -> Option<Seq<u8>>;

/// The binding verification key that belongs to the signing scalar `sk`.
pub uninterp spec fn binding_verification_key(sk: Seq<u8>) -> Seq<u8>;

/// The binding signature made with the scalar `sk` on `msg`, with the signing
/// randomness drawn from a ChaCha20 stream keyed by `seed`.
pub uninterp spec fn binding_signature(sk: Seq<u8>, seed: Seq<u8>, msg: Seq<u8>) -> Seq<u8>;

/// Whether `sig` verifies as a binding signature on `msg` under the
/// verification key `vk`.
pub uninterp spec fn binding_signature_verifies(vk: Seq<u8>, msg: Seq<u8>, sig: Seq<u8>) -> bool;

/// Calls `decaf377_rdsa::VerificationKey::<SpendAuth>::randomize`. The key is
/// read with `VerificationKey::try_from`, the randomizer with
/// `Fr::from_le_bytes_mod_order`, and the result is written with
/// `VerificationKey::to_bytes`. The contract names the result, `None` where
/// `ak` is refused as a key.
#[verifier::external_body]
pub(crate) fn randomize_verification_key(ak: &[u8; 32], randomizer: &[u8; 32]) -> (rk: Option<
    [u8; 32],
>)
    ensures
        opt_bytes(rk) == randomized_key(ak@, randomizer@),
{
    let ak = decaf377_rdsa::VerificationKey::<decaf377_rdsa::SpendAuth>::try_from(*ak).ok()?;
    let r = decaf377::Fr::from_le_bytes_mod_order(randomizer);
    Some(ak.randomize(&r).to_bytes())
}

/// Derives the verification key of a binding signing key with
/// `decaf377_rdsa::SigningKey::<Binding>::new_from_field`. The scalar is read
/// with `Fr::from_le_bytes_mod_order`. The contract names the key's bytes.
#[verifier::external_body]
pub(crate) fn binding_key(sk: &[u8; 32]) -> (vk: [u8; 32])
    ensures
        vk@ == binding_verification_key(sk@),
{
    let sk = decaf377::Fr::from_le_bytes_mod_order(sk);
    let key = decaf377_rdsa::SigningKey::<decaf377_rdsa::Binding>::new_from_field(sk);
    decaf377_rdsa::VerificationKey::from(key).to_bytes()
}

/// Signs with `decaf377_rdsa::SigningKey::<Binding>::sign`. The key is made
/// from the scalar as in [`binding_key`], and the generator handed to `sign` is
/// `rand_chacha::ChaCha20Rng::from_seed(seed)`, so the signature is a function
/// of the three arguments. The contract names it, and claims that it verifies
/// on `msg` under the key that [`binding_key`] derives from the same scalar:
/// `sign` returns `(R, s)` with `s = nonce + c * sk`, which is what `verify`
/// tests.
#[verifier::external_body]
pub(crate) fn sign_binding(sk: &[u8; 32], seed: &[u8; 32], msg: &[u8]) -> (sig: [u8; 64])
    ensures
        sig@ == binding_signature(sk@, seed@, msg@),
        binding_signature_verifies(binding_verification_key(sk@), msg@, sig@),
{
    let rng = <rand_chacha::ChaCha20Rng as rand_core::SeedableRng>::from_seed(*seed);
    let sk = decaf377::Fr::from_le_bytes_mod_order(sk);
    let key = decaf377_rdsa::SigningKey::<decaf377_rdsa::Binding>::new_from_field(sk);
    key.sign(rng, msg).to_bytes()
}

/// Verifies with `decaf377_rdsa::VerificationKey::<Binding>::verify`. The key
/// is read with `VerificationKey::try_from`; bytes that it refuses verify
/// nothing. The contract names the verdict.
#[verifier::external_body]
pub(crate) fn verify_binding(vk: &[u8; 32], msg: &[u8], sig: &[u8; 64]) -> (ok: bool)
    ensures
        ok == binding_signature_verifies(vk@, msg@, sig@),
{
    let sig = decaf377_rdsa::Signature::<decaf377_rdsa::Binding>::from(*sig);
    match decaf377_rdsa::VerificationKey::<decaf377_rdsa::Binding>::try_from(*vk) {
        Ok(key) => key.verify(msg, &sig).is_ok(),
        Err(_) => false,
    }
}

} // verus!
