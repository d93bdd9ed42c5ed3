//! Transaction construction and value-integrity core of a shielded
//! value-transfer protocol.
//!
//! A party describes what it wants to do in a [`transaction::TransactionPlan`].
//! Together with the signatures of the custodian and the inclusion proofs of
//! the commitment accumulator ([`witness`]), the plan is built into a
//! [`transaction::Transaction`]: [`builder`] does so one action after the
//! other, [`concurrent`] with the costly actions handed out as units of work.
//! Either way the actions are listed in the canonical order of [`order`], the
//! blinding factors are summed in [`blinding`], and the body is signed with the
//! key that belongs to the sum. [`laws`] states what holds of every
//! transaction that is built, and [`gathering`] why both ways of building
//! agree.
//!
//! [`integrity`] holds the checks of private data against public values,
//! [`settlement`] the shares of a batch swap, [`service`] the decisions of the
//! view service, and [`command`] those of the command-line client.
//!
//! Field and group arithmetic, hashing, signing and encryption are done by
//! outside crates, behind the contracts in [`field`], [`group`], [`hash`],
//! [`rdsa`] and [`cipher`].

pub mod action;
pub mod address;
pub mod assemble;
pub mod balance;
pub mod blinding;
pub mod builder;
pub mod bytes;
pub mod cipher;
pub mod command;
pub mod concurrent;
pub mod domain;
pub mod encoding;
pub mod error;
pub mod field;
pub mod gathering;
pub mod group;
pub mod hash;
pub mod integrity;
pub mod keys;
pub mod laws;
pub mod note;
pub mod order;
pub mod perspective;
pub mod plan;
mod random;
pub mod rdsa;
pub mod service;
pub mod settlement;
pub mod transaction;
pub mod verify;
pub mod wire;
pub mod witness;
