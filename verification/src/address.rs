//! The values that a proof about an address is given in private.

use vstd::prelude::*;
use crate::field::{base_from_le_bytes_mod_order, base_reduce};
use crate::group::{element_is_identity, is_identity};
use crate::note::Address;

verus! {

/// How a value enters a proof.
#[derive(Clone, Copy, Debug, PartialEq, Eq, Structural)]
pub enum AllocationMode {
    /// As a constant of the statement.
    Constant,
    /// As a public input.
    Input,
    /// As a private witness.
    Witness,
}

/// Why a value could not enter a proof.
#[derive(Clone, Copy, Debug, PartialEq, Eq, Structural)]
pub enum SynthesisError {
    /// The value that was to be assigned does not exist.
    AssignmentMissing,
}

/// An address as a proof holds it: the diversified generator and the
/// transmission key as group elements, and the clue key as a base field
/// element.
#[derive(Clone, Copy, Debug, PartialEq, Eq)]
pub struct AddressVar {
    pub diversified_generator: [u8; 32],
    pub transmission_key: [u8; 32],
    pub clue_key: [u8; 32],
}

impl AddressVar {
    /// The diversified generator.
    pub fn diversified_generator(&self) -> (generator: [u8; 32])
        ensures
            generator == self.diversified_generator,
    {
        self.diversified_generator
    }

    /// The transmission key.
    pub fn transmission_key(&self) -> (key: [u8; 32])
        ensures
            key == self.transmission_key,
    {
        self.transmission_key
    }

    /// The clue key.
    pub fn clue_key(&self) -> (key: [u8; 32])
        ensures
            key == self.clue_key,
    {
        self.clue_key
    }

    /// Assigns the values of `address` as private witnesses.
    ///
    /// The transmission key has to encode a group element: where it does not,
    /// the assignment is missing. The clue key is reduced into the base field.
    /// An address enters a proof as a witness only.
    pub fn new_variable(address: &Address, mode: AllocationMode) -> (r: Result<
        AddressVar,
        SynthesisError,
    >)
        requires
            mode is Witness,
        ensures
            match element_is_identity(address.transmission_key@) {
                None => r == Err::<AddressVar, SynthesisError>(SynthesisError::AssignmentMissing),
                Some(_) => {
                    &&& r is Ok
                    &&& r.unwrap().diversified_generator == address.diversified_generator
                    &&& r.unwrap().transmission_key == address.transmission_key
                    &&& r.unwrap().clue_key@ == base_reduce(address.clue_key@)
                },
            },
    {
        match is_identity(&address.transmission_key) {
            None => Err(SynthesisError::AssignmentMissing),
            Some(_) => Ok(
                AddressVar {
                    diversified_generator: address.diversified_generator,
                    transmission_key: address.transmission_key,
                    clue_key: base_from_le_bytes_mod_order(address.clue_key.as_slice()),
                },
            ),
        }
    }
}

} // verus!
