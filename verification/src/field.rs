//! The two prime fields of the group, read and written as 32-byte strings.
//!
//! A field element is held as the little-endian bytes of its least
//! non-negative representative. All arithmetic is done by `decaf377`; the
//! contracts below say what it returns in terms of [`le_value`].

use vstd::prelude::*;
use crate::bytes::{
    le_bytes, le_value, lemma_le_bytes_len, lemma_le_value_of_le_bytes, lemma_pow256_32,
};

verus! {

/// The order of the group, which is the modulus of its scalar field.
pub open spec fn scalar_modulus() -> nat {
    2111115437357092606062206234695386632838870926408408195193685246394721360383nat
}

/// The modulus of the field over which the curve is defined.
pub open spec fn base_modulus() -> nat {
    8444461749428370424248824938781546531375899335154063827935233455917409239041nat
}

/// The scalar that `bytes` stands for: its little-endian value, reduced.
pub open spec fn scalar_value(bytes: Seq<u8>) -> nat {
    le_value(bytes) % scalar_modulus()
}

/// The canonical bytes of the sum of two scalars.
pub open spec fn scalar_sum(a: Seq<u8>, b: Seq<u8>) -> Seq<u8> {
    le_bytes((le_value(a) + le_value(b)) % scalar_modulus(), 32)
}

/// The canonical bytes of the scalar that an arbitrary byte string stands for.
pub open spec fn scalar_reduce(bytes: Seq<u8>) -> Seq<u8> {
    le_bytes(le_value(bytes) % scalar_modulus(), 32)
}

/// The canonical bytes of the base field element that an arbitrary byte
/// string stands for.
pub open spec fn base_reduce(bytes: Seq<u8>) -> Seq<u8> {
    le_bytes(le_value(bytes) % base_modulus(), 32)
}

/// The canonical bytes of a sum spell the sum of the two scalars.
pub proof fn lemma_scalar_sum_value(a: Seq<u8>, b: Seq<u8>)
    ensures
        scalar_sum(a, b).len() == 32,
        le_value(scalar_sum(a, b)) == (le_value(a) + le_value(b)) % scalar_modulus(),
        scalar_value(scalar_sum(a, b)) == (scalar_value(a) + scalar_value(b)) % scalar_modulus(),
{
    let r = scalar_modulus();
    let x = le_value(a);
    let y = le_value(b);
    let v = (x + y) % r;
    lemma_pow256_32();
    lemma_le_bytes_len(v, 32);
    lemma_le_value_of_le_bytes(v, 32);
    assert(v % r == v) by (nonlinear_arith)
        requires
            v == (x + y) % r,
            r > 0,
    ;
    assert((x + y) % r == ((x % r) + (y % r)) % r) by {
        vstd::arithmetic::div_mod::lemma_add_mod_noop(x as int, y as int, r as int);
    }
}

/// Adds two scalars with `decaf377::Fr`.
///
/// Both arguments are read with `Fr::from_le_bytes_mod_order`, added in the
/// field, and the sum is written with `Fr::to_bytes`. The contract claims that
/// the bytes returned are the little-endian bytes of the sum of the two values
/// modulo the group order.
#[verifier::external_body]
pub(crate) fn scalar_add(a: &[u8; 32], b: &[u8; 32]) -> (sum: [u8; 32])
    ensures
        sum@ == scalar_sum(a@, b@),
{
    let x = decaf377::Fr::from_le_bytes_mod_order(a);
    let y = decaf377::Fr::from_le_bytes_mod_order(b);
    (x + y).to_bytes()
}

/// Reduces 32 little-endian bytes into the scalar field with
/// `decaf377::Fr::from_le_bytes_mod_order`, written back with `Fr::to_bytes`.
///
/// The contract claims that the result is the little-endian bytes of the
/// value of `bytes` modulo the group order.
#[verifier::external_body]
pub(crate) fn scalar_from_le_bytes_mod_order(bytes: &[u8; 32]) -> (out: [u8; 32])
    ensures
        out@ == scalar_reduce(bytes@),
{
    decaf377::Fr::from_le_bytes_mod_order(bytes).to_bytes()
}

/// Reduces a little-endian byte string into the base field with
/// `decaf377::Fq::from_le_bytes_mod_order`, written back with `Fq::to_bytes`.
///
/// The contract claims that the result is the little-endian bytes of the
/// value of `bytes` modulo the base field's modulus.
#[verifier::external_body]
pub(crate) fn base_from_le_bytes_mod_order(bytes: &[u8]) -> (out: [u8; 32])
    ensures
        out@ == base_reduce(bytes@),
{
    decaf377::Fq::from_le_bytes_mod_order(bytes).to_bytes()
}

/// Asks `decaf377::Fq::from_bytes_checked` whether 32 bytes are the canonical
/// encoding of a base field element. The function accepts exactly the bytes
/// that are already reduced, so the contract claims that the answer is whether
/// their value is below the modulus.
#[verifier::external_body]
pub(crate) fn base_is_canonical(bytes: &[u8; 32]) -> (canonical: bool)
    ensures
        canonical == (le_value(bytes@) < base_modulus()),
{
    decaf377::Fq::from_bytes_checked(bytes).is_ok()
}

/// What is reduced into the base field is 32 bytes long and spells a number
/// below the modulus.
pub proof fn lemma_base_reduce_canonical(bytes: Seq<u8>)
    ensures
        base_reduce(bytes).len() == 32,
        le_value(base_reduce(bytes)) == le_value(bytes) % base_modulus(),
        le_value(base_reduce(bytes)) < base_modulus(),
{
    let q = base_modulus();
    let v = le_value(bytes) % q;
    lemma_pow256_32();
    lemma_le_bytes_len(v, 32);
    lemma_le_value_of_le_bytes(v, 32);
}

} // verus!
