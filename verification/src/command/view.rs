//! The commands that look at the private chain state.

use vstd::prelude::*;

pub mod balance;

verus! {

/// View one of your addresses.
#[derive(Clone, Copy, Debug, PartialEq, Eq, Structural)]
pub struct AddressCmd {
    /// Whether the command runs without a synchronized view of the chain.
    pub offline: bool,
}

/// View your staked delegation tokens.
#[derive(Clone, Copy, Debug, PartialEq, Eq, Structural)]
pub struct StakedCmd {
    /// Whether the command runs without a synchronized view of the chain.
    pub offline: bool,
}

/// Get transaction hashes and block heights of spendable notes.
#[derive(Clone, Copy, Debug, PartialEq, Eq, Structural)]
pub struct TransactionHashesCmd {
    /// Whether the command runs without a synchronized view of the chain.
    pub offline: bool,
}

/// Displays a transaction's details by hash.
#[derive(Clone, Copy, Debug, PartialEq, Eq, Structural)]
pub struct TxCmd {
    /// Whether the command runs without a synchronized view of the chain.
    pub offline: bool,
}

/// Deletes all scanned data and local state, while leaving keys untouched.
#[derive(Clone, Copy, Debug, PartialEq, Eq, Structural)]
pub struct Reset {}

/// The commands that look at the private chain state.
#[derive(Clone, Copy, Debug, PartialEq, Eq, Structural)]
pub enum ViewCmd {
    /// View one of your addresses, either by numerical index, or a random
    /// ephemeral one.
    Address(AddressCmd),
    /// View your account balances.
    Balance(balance::BalanceCmd),
    /// View your staked delegation tokens.
    Staked(StakedCmd),
    /// Deletes all scanned data and local state, while leaving keys untouched.
    Reset(Reset),
    /// Synchronizes the client, privately scanning the chain state.
    Sync,
    /// Get transaction hashes and block heights of spendable notes.
    ListTransactionHashes(TransactionHashesCmd),
    /// Displays a transaction's details by hash.
    Tx(TxCmd),
}

/// What the reset of the view data finds at the place of the view data.
#[derive(Clone, Copy, Debug, PartialEq, Eq, Structural)]
pub enum Found {
    /// A file.
    File,
    /// Something that is no file.
    Other,
    /// Nothing.
    Nothing,
}

/// What the reset of the view data does.
#[derive(Clone, Copy, Debug, PartialEq, Eq, Structural)]
pub enum ResetOutcome {
    /// The file is deleted.
    Delete,
    /// What is there is no file, and is left alone.
    RefuseNotAFile,
    /// There is nothing to delete.
    RefuseMissing,
}

impl AddressCmd {
    /// Whether the command runs without a synchronized view of the chain.
    pub fn offline(&self) -> (offline: bool)
        ensures
            offline == self.offline,
    {
        self.offline
    }
}

impl StakedCmd {
    /// Whether the command runs without a synchronized view of the chain.
    pub fn offline(&self) -> (offline: bool)
        ensures
            offline == self.offline,
    {
        self.offline
    }
}

impl TransactionHashesCmd {
    /// Whether the command runs without a synchronized view of the chain.
    pub fn offline(&self) -> (offline: bool)
        ensures
            offline == self.offline,
    {
        self.offline
    }
}

impl TxCmd {
    /// Whether the command runs without a synchronized view of the chain.
    pub fn offline(&self) -> (offline: bool)
        ensures
            offline == self.offline,
    {
        self.offline
    }
}

impl Reset {
    /// Decides what the reset does, given what it finds at the place of the
    /// view data: a file is deleted, anything else is an error.
    pub fn decide(&self, found: Found) -> (outcome: ResetOutcome)
        ensures
            outcome == match found {
                Found::File => ResetOutcome::Delete,
                Found::Other => ResetOutcome::RefuseNotAFile,
                Found::Nothing => ResetOutcome::RefuseMissing,
            },
    {
        match found {
            Found::File => ResetOutcome::Delete,
            Found::Other => ResetOutcome::RefuseNotAFile,
            Found::Nothing => ResetOutcome::RefuseMissing,
        }
    }
}

impl ViewCmd {
    /// Whether this command runs without a synchronized view of the chain:
    /// a reset always does, a synchronization never does, and every other
    /// command says so itself.
    pub open spec fn spec_offline(self) -> bool {
        match self {
            ViewCmd::Address(cmd) => cmd.offline,
            ViewCmd::Balance(cmd) => cmd.spec_offline(),
            ViewCmd::Staked(cmd) => cmd.offline,
            ViewCmd::Reset(_) => true,
            ViewCmd::Sync => false,
            ViewCmd::ListTransactionHashes(cmd) => cmd.offline,
            ViewCmd::Tx(cmd) => cmd.offline,
        }
    }

    /// Whether this command runs without a synchronized view of the chain.
    pub fn offline(&self) -> (offline: bool)
        ensures
            offline == self.spec_offline(),
    {
        match self {
            ViewCmd::Address(address_cmd) => address_cmd.offline(),
            ViewCmd::Balance(balance_cmd) => balance_cmd.offline(),
            ViewCmd::Staked(staked_cmd) => staked_cmd.offline(),
            ViewCmd::Reset(_) => true,
            ViewCmd::Sync => false,
            ViewCmd::ListTransactionHashes(transactions_cmd) => transactions_cmd.offline(),
            ViewCmd::Tx(tx_cmd) => tx_cmd.offline(),
        }
    }
}

} // verus!
