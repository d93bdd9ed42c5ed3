//! Domain separation.
//!
//! Every use of a hash in the protocol has a label of its own. The label's
//! BLAKE2b digest, reduced into the base field, separates that use from all
//! others.

use vstd::prelude::*;
use crate::field::{base_from_le_bytes_mod_order, base_reduce};
use crate::hash::{blake2b, blake2b_512};

verus! {

/// The domain separator that belongs to `label`: the label's BLAKE2b digest,
/// reduced into the base field.
pub open spec fn spec_domain_separator(label: Seq<u8>) -> Seq<u8> {
    base_reduce(blake2b_512(label))
}

/// Derives the domain separator that belongs to `label`.
pub fn domain_separator(label: &[u8]) -> (separator: [u8; 32])
    ensures
        separator@ == spec_domain_separator(label@),
{
    let digest = blake2b(label);
    base_from_le_bytes_mod_order(digest.as_slice())
}

/// The label of note commitments: `penumbra.notecommit`.
pub open spec fn notecommit_label() -> Seq<u8> {
    seq![0x70u8, 0x65, 0x6e, 0x75, 0x6d, 0x62, 0x72, 0x61, 0x2e, 0x6e, 0x6f, 0x74, 0x65, 0x63, 0x6f, 0x6d, 0x6d, 0x69, 0x74]
}

/// The domain separator of note commitments.
pub fn notecommit_domain_separator() -> (separator: [u8; 32])
    ensures
        separator@ == spec_domain_separator(notecommit_label()),
{
    let label: [u8; 19] = [0x70, 0x65, 0x6e, 0x75, 0x6d, 0x62, 0x72, 0x61, 0x2e, 0x6e, 0x6f, 0x74, 0x65, 0x63, 0x6f, 0x6d, 0x6d, 0x69, 0x74];
    assert(label@ =~= notecommit_label());
    domain_separator(label.as_slice())
}

/// The label of nullifiers: `penumbra.nullifier`.
pub open spec fn nullifier_label() -> Seq<u8> {
    seq![0x70u8, 0x65, 0x6e, 0x75, 0x6d, 0x62, 0x72, 0x61, 0x2e, 0x6e, 0x75, 0x6c, 0x6c, 0x69, 0x66, 0x69, 0x65, 0x72]
}

/// The domain separator of nullifiers.
pub fn nullifier_domain_separator() -> (separator: [u8; 32])
    ensures
        separator@ == spec_domain_separator(nullifier_label()),
{
    let label: [u8; 18] = [0x70, 0x65, 0x6e, 0x75, 0x6d, 0x62, 0x72, 0x61, 0x2e, 0x6e, 0x75, 0x6c, 0x6c, 0x69, 0x66, 0x69, 0x65, 0x72];
    assert(label@ =~= nullifier_label());
    domain_separator(label.as_slice())
}

/// The label of incoming viewing keys: `penumbra.derive.ivk`.
pub open spec fn ivk_label() -> Seq<u8> {
    seq![0x70u8, 0x65, 0x6e, 0x75, 0x6d, 0x62, 0x72, 0x61, 0x2e, 0x64, 0x65, 0x72, 0x69, 0x76, 0x65, 0x2e, 0x69, 0x76, 0x6b]
}

/// The domain separator of incoming viewing keys.
pub fn ivk_domain_separator() -> (separator: [u8; 32])
    ensures
        separator@ == spec_domain_separator(ivk_label()),
{
    let label: [u8; 19] = [0x70, 0x65, 0x6e, 0x75, 0x6d, 0x62, 0x72, 0x61, 0x2e, 0x64, 0x65, 0x72, 0x69, 0x76, 0x65, 0x2e, 0x69, 0x76, 0x6b];
    assert(label@ =~= ivk_label());
    domain_separator(label.as_slice())
}

/// The label of the generators of asset values: `penumbra.value.generator`.
pub open spec fn value_generator_label() -> Seq<u8> {
    seq![0x70u8, 0x65, 0x6e, 0x75, 0x6d, 0x62, 0x72, 0x61, 0x2e, 0x76, 0x61, 0x6c, 0x75, 0x65, 0x2e, 0x67, 0x65, 0x6e, 0x65, 0x72, 0x61, 0x74, 0x6f, 0x72]
}

/// The domain separator of the generators of asset values.
pub fn value_generator_domain_separator() -> (separator: [u8; 32])
    ensures
        separator@ == spec_domain_separator(value_generator_label()),
{
    let label: [u8; 24] = [0x70, 0x65, 0x6e, 0x75, 0x6d, 0x62, 0x72, 0x61, 0x2e, 0x76, 0x61, 0x6c, 0x75, 0x65, 0x2e, 0x67, 0x65, 0x6e, 0x65, 0x72, 0x61, 0x74, 0x6f, 0x72];
    assert(label@ =~= value_generator_label());
    domain_separator(label.as_slice())
}

/// The label of the generator of value blindings: `decaf377-rdsa-binding`.
pub open spec fn value_blinding_label() -> Seq<u8> {
    seq![0x64u8, 0x65, 0x63, 0x61, 0x66, 0x33, 0x37, 0x37, 0x2d, 0x72, 0x64, 0x73, 0x61, 0x2d, 0x62, 0x69, 0x6e, 0x64, 0x69, 0x6e, 0x67]
}

/// The domain separator of the generator of value blindings.
pub fn value_blinding_domain_separator() -> (separator: [u8; 32])
    ensures
        separator@ == spec_domain_separator(value_blinding_label()),
{
    let label: [u8; 21] = [0x64, 0x65, 0x63, 0x61, 0x66, 0x33, 0x37, 0x37, 0x2d, 0x72, 0x64, 0x73, 0x61, 0x2d, 0x62, 0x69, 0x6e, 0x64, 0x69, 0x6e, 0x67];
    assert(label@ =~= value_blinding_label());
    domain_separator(label.as_slice())
}

/// The label of swap commitments: `penumbra.swap`.
pub open spec fn swap_label() -> Seq<u8> {
    seq![0x70u8, 0x65, 0x6e, 0x75, 0x6d, 0x62, 0x72, 0x61, 0x2e, 0x73, 0x77, 0x61, 0x70]
}

/// The domain separator of swap commitments.
pub fn swap_domain_separator() -> (separator: [u8; 32])
    ensures
        separator@ == spec_domain_separator(swap_label()),
{
    let label: [u8; 13] = [0x70, 0x65, 0x6e, 0x75, 0x6d, 0x62, 0x72, 0x61, 0x2e, 0x73, 0x77, 0x61, 0x70];
    assert(label@ =~= swap_label());
    domain_separator(label.as_slice())
}

} // verus!
