//! Randomness from the operating system.

use vstd::prelude::*;

verus! {

/// Draws 32 bytes with `rand_core::OsRng::try_fill_bytes`; `None` where the
/// operating system gives no randomness. Nothing is claimed of the bytes.
#[verifier::external_body]
pub(crate) fn random_bytes32() -> (bytes: Option<[u8; 32]>) {
    let mut bytes = [0u8; 32];
    match rand_core::RngCore::try_fill_bytes(&mut rand_core::OsRng, &mut bytes) {
        Ok(()) => Some(bytes),
        Err(_) => None,
    }
}

} // verus!
