//! The hash functions the protocol is built on.
//!
//! Neither BLAKE2b nor Poseidon is restated here: each digest is named by a
//! function without a body, and the wrappers say that the outside crate
//! returns that digest.

use vstd::prelude::*;

verus! {

/// The 64-byte BLAKE2b digest of `input`, with default parameters.
pub uninterp spec fn blake2b_512(input: Seq<u8>) -> Seq<u8>;

/// The 64-byte BLAKE2b digest of `input` under the personalization `personal`.
pub uninterp spec fn blake2b_512_personal(personal: Seq<u8>, input: Seq<u8>) -> Seq<u8>;

/// The 64-byte BLAKE2b digest of `input` under the personalization `personal`
/// and the key `key`.
pub uninterp spec fn blake2b_512_keyed(personal: Seq<u8>, key: Seq<u8>, input: Seq<u8>) -> Seq<u8>;

/// The Poseidon hash of one base field element under `domain`.
pub uninterp spec fn poseidon_1(domain: Seq<u8>, a: Seq<u8>) -> Seq<u8>;

/// The Poseidon hash of two base field elements under `domain`.
pub uninterp spec fn poseidon_2(domain: Seq<u8>, a: Seq<u8>, b: Seq<u8>) -> Seq<u8>;

/// The Poseidon hash of three base field elements under `domain`.
pub uninterp spec fn poseidon_3(domain: Seq<u8>, a: Seq<u8>, b: Seq<u8>, c: Seq<u8>) -> Seq<u8>;

/// The Poseidon hash of four base field elements under `domain`.
pub uninterp spec fn poseidon_4(
    domain: Seq<u8>,
    a: Seq<u8>,
    b: Seq<u8>,
    c: Seq<u8>,
    d: Seq<u8>,
) -> Seq<u8>;

/// The Poseidon hash of six base field elements under `domain`.
pub uninterp spec fn poseidon_6(
    domain: Seq<u8>,
    a: Seq<u8>,
    b: Seq<u8>,
    c: Seq<u8>,
    d: Seq<u8>,
    e: Seq<u8>,
    f: Seq<u8>,
) -> Seq<u8>;

/// The Poseidon hash of seven base field elements under `domain`.
pub uninterp spec fn poseidon_7(
    domain: Seq<u8>,
    a: Seq<u8>,
    b: Seq<u8>,
    c: Seq<u8>,
    d: Seq<u8>,
    e: Seq<u8>,
    f: Seq<u8>,
    g: Seq<u8>,
) -> Seq<u8>;

/// Calls `blake2b_simd::blake2b`. The contract names its 64-byte digest.
#[verifier::external_body]
pub(crate) fn blake2b(input: &[u8]) -> (digest: [u8; 64])
    ensures
        digest@ == blake2b_512(input@),
{
    *blake2b_simd::blake2b(input).as_array()
}

/// Calls `blake2b_simd::Params::hash` with the personalization set and every
/// other parameter at its default. `Params::personal` refuses more than 16
/// bytes, so the contract asks for no more. It names the 64-byte digest.
#[verifier::external_body]
pub(crate) fn blake2b_personal(personal: &[u8], input: &[u8]) -> (digest: [u8; 64])
    requires
        personal@.len() <= 16,
    ensures
        digest@ == blake2b_512_personal(personal@, input@),
{
    *blake2b_simd::Params::new().personal(personal).hash(input).as_array()
}

/// Calls `blake2b_simd::Params::hash` with the personalization and the key
/// set and every other parameter at its default. `Params::personal` refuses
/// more than 16 bytes and `Params::key` more than 64, so the contract asks for
/// no more. It names the 64-byte digest.
#[verifier::external_body]
pub(crate) fn blake2b_keyed(personal: &[u8], key: &[u8], input: &[u8]) -> (digest: [u8; 64])
    requires
        personal@.len() <= 16,
        key@.len() <= 64,
    ensures
        digest@ == blake2b_512_keyed(personal@, key@, input@),
{
    *blake2b_simd::Params::new().personal(personal).key(key).hash(input).as_array()
}

/// Calls `poseidon377::hash_1`. Each argument is read into the base field with
/// `Fq::from_le_bytes_mod_order` and the digest is written with `Fq::to_bytes`.
/// The contract names the digest.
#[verifier::external_body]
pub(crate) fn poseidon_hash_1(domain: &[u8; 32], a: &[u8; 32]) -> (digest: [u8; 32])
    ensures
        digest@ == poseidon_1(domain@, a@),
{
    let ds = decaf377::Fq::from_le_bytes_mod_order(domain);
    poseidon377::hash_1(&ds, decaf377::Fq::from_le_bytes_mod_order(a)).to_bytes()
}

/// Calls `poseidon377::hash_2`, reading and writing field elements as
/// [`poseidon_hash_1`] does. The contract names the digest.
#[verifier::external_body]
pub(crate) fn poseidon_hash_2(domain: &[u8; 32], a: &[u8; 32], b: &[u8; 32]) -> (digest: [u8; 32])
    ensures
        digest@ == poseidon_2(domain@, a@, b@),
{
    let ds = decaf377::Fq::from_le_bytes_mod_order(domain);
    let a = decaf377::Fq::from_le_bytes_mod_order(a);
    let b = decaf377::Fq::from_le_bytes_mod_order(b);
    poseidon377::hash_2(&ds, (a, b)).to_bytes()
}

/// Calls `poseidon377::hash_3`, reading and writing field elements as
/// [`poseidon_hash_1`] does. The contract names the digest.
#[verifier::external_body]
pub(crate) fn poseidon_hash_3(
    domain: &[u8; 32],
    a: &[u8; 32],
    b: &[u8; 32],
    c: &[u8; 32],
) -> (digest: [u8; 32])
    ensures
        digest@ == poseidon_3(domain@, a@, b@, c@),
{
    let ds = decaf377::Fq::from_le_bytes_mod_order(domain);
    let a = decaf377::Fq::from_le_bytes_mod_order(a);
    let b = decaf377::Fq::from_le_bytes_mod_order(b);
    let c = decaf377::Fq::from_le_bytes_mod_order(c);
    poseidon377::hash_3(&ds, (a, b, c)).to_bytes()
}

/// Calls `poseidon377::hash_4`, reading and writing field elements as
/// [`poseidon_hash_1`] does. The contract names the digest.
#[verifier::external_body]
pub(crate) fn poseidon_hash_4(
    domain: &[u8; 32],
    a: &[u8; 32],
    b: &[u8; 32],
    c: &[u8; 32],
    d: &[u8; 32],
) -> (digest: [u8; 32])
    ensures
        digest@ == poseidon_4(domain@, a@, b@, c@, d@),
{
    let ds = decaf377::Fq::from_le_bytes_mod_order(domain);
    let a = decaf377::Fq::from_le_bytes_mod_order(a);
    let b = decaf377::Fq::from_le_bytes_mod_order(b);
    let c = decaf377::Fq::from_le_bytes_mod_order(c);
    let d = decaf377::Fq::from_le_bytes_mod_order(d);
    poseidon377::hash_4(&ds, (a, b, c, d)).to_bytes()
}

/// Calls `poseidon377::hash_6`, reading and writing field elements as
/// [`poseidon_hash_1`] does. The contract names the digest.
#[verifier::external_body]
pub(crate) fn poseidon_hash_6(domain: &[u8; 32], values: &[[u8; 32]; 6]) -> (digest: [u8; 32])
    ensures
        digest@ == poseidon_6(
            domain@,
            values@[0]@,
            values@[1]@,
            values@[2]@,
            values@[3]@,
            values@[4]@,
            values@[5]@,
        ),
{
    let ds = decaf377::Fq::from_le_bytes_mod_order(domain);
    let a = decaf377::Fq::from_le_bytes_mod_order(&values[0]);
    let b = decaf377::Fq::from_le_bytes_mod_order(&values[1]);
    let c = decaf377::Fq::from_le_bytes_mod_order(&values[2]);
    let d = decaf377::Fq::from_le_bytes_mod_order(&values[3]);
    let e = decaf377::Fq::from_le_bytes_mod_order(&values[4]);
    let f = decaf377::Fq::from_le_bytes_mod_order(&values[5]);
    poseidon377::hash_6(&ds, (a, b, c, d, e, f)).to_bytes()
}

/// Calls `poseidon377::hash_7`, reading and writing field elements as
/// [`poseidon_hash_1`] does. The contract names the digest.
#[verifier::external_body]
pub(crate) fn poseidon_hash_7(domain: &[u8; 32], values: &[[u8; 32]; 7]) -> (digest: [u8; 32])
    ensures
        digest@ == poseidon_7(
            domain@,
            values@[0]@,
            values@[1]@,
            values@[2]@,
            values@[3]@,
            values@[4]@,
            values@[5]@,
            values@[6]@,
        ),
{
    let ds = decaf377::Fq::from_le_bytes_mod_order(domain);
    let a = decaf377::Fq::from_le_bytes_mod_order(&values[0]);
    let b = decaf377::Fq::from_le_bytes_mod_order(&values[1]);
    let c = decaf377::Fq::from_le_bytes_mod_order(&values[2]);
    let d = decaf377::Fq::from_le_bytes_mod_order(&values[3]);
    let e = decaf377::Fq::from_le_bytes_mod_order(&values[4]);
    let f = decaf377::Fq::from_le_bytes_mod_order(&values[5]);
    let g = decaf377::Fq::from_le_bytes_mod_order(&values[6]);
    poseidon377::hash_7(&ds, (a, b, c, d, e, f, g)).to_bytes()
}

} // verus!
