//! Authenticated encryption of what a transaction carries in private.

use vstd::prelude::*;
use chacha20poly1305::aead::Aead;
use chacha20poly1305::aead::KeyInit;

verus! {

/// The view of an optional byte string.
pub open spec fn opt_vec(value: Option<Vec<u8>>) -> Option<Seq<u8>> {
    match value {
        Some(bytes) => Some(bytes@),
        None => None,
    }
}

/// The ChaCha20-Poly1305 ciphertext of `plaintext` under `key` and `nonce`,
/// with its tag and without associated data; `None` where the cipher refuses
/// to encrypt.
pub uninterp spec fn chacha20poly1305_encrypt(
    key: Seq<u8>,
    nonce: Seq<u8>,
    plaintext: Seq<u8>,
) -> Option<Seq<u8>>;

/// Calls `chacha20poly1305::ChaCha20Poly1305::encrypt`, on a cipher made with
/// `KeyInit::new` from the key. The contract names the ciphertext, `None` where
/// `encrypt` returns an error.
#[verifier::external_body]
pub(crate) fn encrypt(key: &[u8; 32], nonce: &[u8; 12], plaintext: &[u8]) -> (ciphertext: Option<
    Vec<u8>,
>)
    ensures
        opt_vec(ciphertext) == chacha20poly1305_encrypt(key@, nonce@, plaintext@),
{
    let cipher = chacha20poly1305::ChaCha20Poly1305::new(&(*key).into());
    cipher.encrypt(&(*nonce).into(), plaintext).ok()
}

} // verus!
