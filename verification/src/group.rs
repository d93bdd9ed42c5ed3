//! The prime-order group, with elements held as their 32-byte encodings.
//!
//! The group law is `decaf377`'s. What each operation returns is named by a
//! function without a body: `None` stands for an operand that is not the
//! encoding of any element.

use vstd::prelude::*;

verus! {

/// The view of an optional 32-byte string.
pub open spec fn opt_bytes(value: Option<[u8; 32]>) -> Option<Seq<u8>> {
    match value {
        Some(bytes) => Some(bytes@),
        None => None,
    }
}

/// Whether the element encoded by `encoding` is the identity; `None` where
/// `encoding` encodes no element.
pub uninterp spec fn element_is_identity(encoding: Seq<u8>) -> Option<bool>;

/// The encoding of `[scalar] point`.
pub uninterp spec fn element_mul(scalar: Seq<u8>, point: Seq<u8>) -> Option<Seq<u8>>;

/// The encoding of `a + b`.
pub uninterp spec fn element_add(a: Seq<u8>, b: Seq<u8>) -> Option<Seq<u8>>;

/// The encoding of `a - b`.
pub uninterp spec fn element_sub(a: Seq<u8>, b: Seq<u8>) -> Option<Seq<u8>>;

/// The encoding of the element that the Elligator map assigns to the base
/// field element `r`.
pub uninterp spec fn element_from_field(r: Seq<u8>) -> Seq<u8>;

/// Decodes with `decaf377::Encoding::vartime_decompress` and asks
/// `Element::is_identity`. The contract names the answer, `None` where the
/// bytes do not decode.
#[verifier::external_body]
pub(crate) fn is_identity(encoding: &[u8; 32]) -> (r: Option<bool>)
    ensures
        r == element_is_identity(encoding@),
{
    decaf377::Encoding(*encoding).vartime_decompress().ok().map(|p| p.is_identity())
}

/// Multiplies an element by a scalar with `decaf377`'s `Mul`. The scalar is
/// read with `Fr::from_le_bytes_mod_order`, the point is decoded with
/// `Encoding::vartime_decompress`, and the product is encoded with
/// `Element::vartime_compress`. The contract names the product's encoding,
/// `None` where the point does not decode.
#[verifier::external_body]
pub(crate) fn scalar_mul(scalar: &[u8; 32], point: &[u8; 32]) -> (r: Option<[u8; 32]>)
    ensures
        opt_bytes(r) == element_mul(scalar@, point@),
{
    let s = decaf377::Fr::from_le_bytes_mod_order(scalar);
    let p = decaf377::Encoding(*point).vartime_decompress().ok()?;
    Some((p * s).vartime_compress().0)
}

/// Adds two elements with `decaf377`'s `Add`, decoding and encoding as
/// [`scalar_mul`] does. The contract names the sum's encoding, `None` where an
/// operand does not decode.
#[verifier::external_body]
pub(crate) fn point_add(a: &[u8; 32], b: &[u8; 32]) -> (r: Option<[u8; 32]>)
    ensures
        opt_bytes(r) == element_add(a@, b@),
{
    let p = decaf377::Encoding(*a).vartime_decompress().ok()?;
    let q = decaf377::Encoding(*b).vartime_decompress().ok()?;
    Some((p + q).vartime_compress().0)
}

/// Subtracts two elements with `decaf377`'s `Sub`, decoding and encoding as
/// [`scalar_mul`] does. The contract names the difference's encoding, `None`
/// where an operand does not decode.
#[verifier::external_body]
pub(crate) fn point_sub(a: &[u8; 32], b: &[u8; 32]) -> (r: Option<[u8; 32]>)
    ensures
        opt_bytes(r) == element_sub(a@, b@),
{
    let p = decaf377::Encoding(*a).vartime_decompress().ok()?;
    let q = decaf377::Encoding(*b).vartime_decompress().ok()?;
    Some((p - q).vartime_compress().0)
}

/// Maps a base field element to the group with
/// `decaf377::Element::encode_to_curve`. The argument is read with
/// `Fq::from_le_bytes_mod_order` and the element is encoded with
/// `Element::vartime_compress`. The contract names that encoding.
#[verifier::external_body]
pub(crate) fn encode_to_curve(r: &[u8; 32]) -> (point: [u8; 32])
    ensures
        point@ == element_from_field(r@),
{
    let r = decaf377::Fq::from_le_bytes_mod_order(r);
    decaf377::Element::encode_to_curve(&r).vartime_compress().0
}

} // verus!
