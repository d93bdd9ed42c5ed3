//! The commands of the command-line client, and what each of them needs
//! before it can run.

use vstd::prelude::*;

pub mod query;
pub mod view;

verus! {

/// Key management. Works on local files alone.
#[derive(Clone, Copy, Debug, PartialEq, Eq, Structural)]
pub struct KeysCmd {
    /// Whether the command runs without a synchronized view of the chain.
    pub offline: bool,
}

/// Queries of the public chain state.
#[derive(Clone, Copy, Debug, PartialEq, Eq, Structural)]
pub struct QueryCmd {}

/// Making and broadcasting a transaction.
#[derive(Clone, Copy, Debug, PartialEq, Eq, Structural)]
pub struct TxCmd {
    /// Whether the command runs without a synchronized view of the chain.
    pub offline: bool,
}

/// What to do with a validator definition.
#[derive(Clone, Debug, PartialEq, Eq)]
#[allow(inconsistent_fields)]
pub enum DefinitionCmd {
    /// Write a template of a definition, to the file or to the terminal.
    Template { file: Option<String> },
    /// Fetch the definition from the chain, to the file or to the terminal.
    Fetch { file: Option<String> },
    /// Upload the definition in the file to the chain.
    Upload { file: String },
}

/// Managing a validator.
#[derive(Clone, Debug, PartialEq, Eq)]
pub enum ValidatorCmd {
    /// Show the identity key of the validator.
    Identity,
    /// Manage the definition of the validator.
    Definition(DefinitionCmd),
}

/// Every command, grouped by what it needs before it can run.
#[derive(Clone, Debug, PartialEq, Eq)]
pub enum CommandRoot {
    /// Needs the data directory alone.
    Init(InitCommands),
    /// Needs the keys, but no network.
    Offline(OfflineCommands),
    /// Needs the keys and the network.
    Online(OnlineCommands),
}

/// The commands that need the data directory alone.
#[derive(Clone, Debug, PartialEq, Eq)]
pub enum InitCommands {
    View(view::ViewCmd),
    Keys(KeysCmd),
}

/// The commands that need the keys, but no network.
#[derive(Clone, Debug, PartialEq, Eq)]
pub enum OfflineCommands {
    View(view::ViewCmd),
    /// Manage a validator.
    Validator(ValidatorCmd),
}

/// The commands that need the keys and the network.
#[derive(Clone, Debug, PartialEq, Eq)]
pub enum OnlineCommands {
    Query(QueryCmd),
    /// View your private chain state, like account balances.
    View(view::ViewCmd),
    Transaction(TxCmd),
    /// Manage a validator.
    Validator(ValidatorCmd),
}

/// Every command.
#[derive(Clone, Debug, PartialEq, Eq)]
pub enum Command {
    /// Query the public chain state, like the validator set.
    Query(QueryCmd),
    /// View your private chain state, like account balances.
    View(view::ViewCmd),
    /// Create and broadcast a transaction.
    Transaction(TxCmd),
    /// Manage your wallet's keys.
    Keys(KeysCmd),
    /// Manage a validator.
    Validator(ValidatorCmd),
}

/// What an [`InitCommands`] does with the data directory.
#[derive(Clone, Copy, Debug, PartialEq, Eq, Structural)]
pub enum InitAction {
    /// Run the key command on the data directory.
    Keys(KeysCmd),
    /// Delete the view data in the data directory.
    ResetView,
}

/// What an [`OfflineCommands`] does with the keys.
#[derive(Clone, Debug, PartialEq, Eq)]
pub enum OfflineAction {
    /// Show an address.
    ShowAddress(view::AddressCmd),
    /// Show the identity key.
    ShowIdentity,
    /// Write a template of a validator definition.
    WriteTemplate { file: Option<String> },
    /// Fetch the validator definition of the own identity.
    FetchDefinition { file: Option<String> },
}

impl KeysCmd {
    /// Whether the command runs without a synchronized view of the chain.
    pub fn offline(&self) -> (offline: bool)
        ensures
            offline == self.offline,
    {
        self.offline
    }
}

impl TxCmd {
    /// Whether the command runs without a synchronized view of the chain.
    pub fn offline(&self) -> (offline: bool)
        ensures
            offline == self.offline,
    {
        self.offline
    }
}

impl ValidatorCmd {
    /// Whether the command runs without a synchronized view of the chain:
    /// every validator command but the upload of a definition does.
    pub open spec fn spec_offline(self) -> bool {
        match self {
            ValidatorCmd::Identity => true,
            ValidatorCmd::Definition(DefinitionCmd::Upload { .. }) => false,
            ValidatorCmd::Definition(_) => true,
        }
    }

    /// Whether the command runs without a synchronized view of the chain.
    pub fn offline(&self) -> (offline: bool)
        ensures
            offline == self.spec_offline(),
    {
        match self {
            ValidatorCmd::Identity => true,
            ValidatorCmd::Definition(DefinitionCmd::Upload { .. }) => false,
            ValidatorCmd::Definition(_) => true,
        }
    }
}

impl Command {
    /// Whether this command runs without a synchronized view of the chain.
    pub open spec fn spec_offline(self) -> bool {
        match self {
            Command::Transaction(cmd) => cmd.offline,
            Command::View(cmd) => cmd.spec_offline(),
            Command::Keys(cmd) => cmd.offline,
            Command::Validator(cmd) => cmd.spec_offline(),
            Command::Query(_) => false,
        }
    }

    /// Determine if this command requires a network sync before it executes.
    pub fn offline(&self) -> (offline: bool)
        ensures
            offline == self.spec_offline(),
    {
        match self {
            Command::Transaction(cmd) => cmd.offline(),
            Command::View(cmd) => cmd.offline(),
            Command::Keys(cmd) => cmd.offline(),
            Command::Validator(cmd) => cmd.offline(),
            Command::Query(_) => false,
        }
    }
}

impl InitCommands {
    /// Whether this command can run on the data directory alone: the key
    /// commands and the reset of the view data can.
    pub open spec fn spec_runs_early(self) -> bool {
        match self {
            InitCommands::Keys(_) => true,
            InitCommands::View(view::ViewCmd::Reset(_)) => true,
            _ => false,
        }
    }

    /// What this command does with the data directory.
    ///
    /// The key commands take the data directory as it is, since they may have
    /// to create the client state. The reset of the view data takes it too,
    /// and must not be run while a view service works on it.
    pub fn action(&self) -> (action: InitAction)
        requires
            self.spec_runs_early(),
        ensures
            match *self {
                InitCommands::Keys(cmd) => action == InitAction::Keys(cmd),
                _ => action == InitAction::ResetView,
            },
    {
        match self {
            InitCommands::Keys(cmd) => InitAction::Keys(*cmd),
            _ => InitAction::ResetView,
        }
    }

    /// What this command does with the data directory, if it can run on the
    /// data directory alone.
    pub fn checked_action(&self) -> (action: Option<InitAction>)
        ensures
            action is Some <==> self.spec_runs_early(),
            match *self {
                InitCommands::Keys(cmd) => action == Some(InitAction::Keys(cmd)),
                InitCommands::View(view::ViewCmd::Reset(_)) => action == Some(
                    InitAction::ResetView,
                ),
                _ => action is None,
            },
    {
        match self {
            InitCommands::Keys(_) => Some(self.action()),
            InitCommands::View(view::ViewCmd::Reset(_)) => Some(self.action()),
            _ => None,
        }
    }
}

/// The part of a validator definition that a template fills in by itself.
#[derive(Clone, Debug, PartialEq, Eq)]
pub struct DefinitionTemplate {
    pub name: String,
    pub website: String,
    pub description: String,
    /// Whether the validator takes part in consensus.
    pub enabled: bool,
    /// The share of the rewards that goes to the validator's own address, in
    /// basis points.
    pub funding_rate_bps: u16,
    /// Counts the definitions of one validator.
    pub sequence_number: u32,
}

/// The share of the rewards that a template gives to the validator's own
/// address, in basis points.
pub const TEMPLATE_FUNDING_RATE_BPS: u16 = 100;

impl DefinitionTemplate {
    /// What a template of a validator definition holds before the operator
    /// fills it in.
    ///
    /// The validator is not enabled, so that an operator has to enable it by
    /// hand when it is ready. One funding stream goes to the validator's own
    /// address. The texts are empty and the sequence starts at zero.
    pub fn new() -> (template: DefinitionTemplate)
        ensures
            template.name@.len() == 0,
            template.website@.len() == 0,
            template.description@.len() == 0,
            !template.enabled,
            template.funding_rate_bps == TEMPLATE_FUNDING_RATE_BPS,
            template.sequence_number == 0,
    {
        DefinitionTemplate {
            name: String::new(),
            website: String::new(),
            description: String::new(),
            enabled: false,
            funding_rate_bps: TEMPLATE_FUNDING_RATE_BPS,
            sequence_number: 0,
        }
    }
}

impl OfflineCommands {
    /// Whether this command can run with the keys alone: showing an address,
    /// showing the identity key, and writing or fetching a validator
    /// definition can.
    pub open spec fn spec_runs_offline(self) -> bool {
        match self {
            OfflineCommands::View(view::ViewCmd::Address(_)) => true,
            OfflineCommands::Validator(ValidatorCmd::Identity) => true,
            OfflineCommands::Validator(
                ValidatorCmd::Definition(DefinitionCmd::Template { .. }),
            ) => true,
            OfflineCommands::Validator(ValidatorCmd::Definition(DefinitionCmd::Fetch { .. })) => true,
            _ => false,
        }
    }

    /// What this command does with the keys, if it can run with the keys
    /// alone.
    pub fn action(&self) -> (action: Option<OfflineAction>)
        ensures
            action is Some <==> self.spec_runs_offline(),
            match *self {
                OfflineCommands::View(view::ViewCmd::Address(cmd)) => action == Some(
                    OfflineAction::ShowAddress(cmd),
                ),
                OfflineCommands::Validator(ValidatorCmd::Identity) => action == Some(
                    OfflineAction::ShowIdentity,
                ),
                OfflineCommands::Validator(
                    ValidatorCmd::Definition(DefinitionCmd::Template { file }),
                ) => action == Some(OfflineAction::WriteTemplate { file }),
                OfflineCommands::Validator(
                    ValidatorCmd::Definition(DefinitionCmd::Fetch { file }),
                ) => action == Some(OfflineAction::FetchDefinition { file }),
                _ => action is None,
            },
    {
        match self {
            OfflineCommands::View(view::ViewCmd::Address(cmd)) => Some(
                OfflineAction::ShowAddress(*cmd),
            ),
            OfflineCommands::Validator(ValidatorCmd::Identity) => Some(OfflineAction::ShowIdentity),
            OfflineCommands::Validator(
                ValidatorCmd::Definition(DefinitionCmd::Template { file }),
            ) => Some(OfflineAction::WriteTemplate { file: copy_file(file) }),
            OfflineCommands::Validator(ValidatorCmd::Definition(DefinitionCmd::Fetch { file })) => Some(
                OfflineAction::FetchDefinition { file: copy_file(file) },
            ),
            _ => None,
        }
    }
}

/// A copy of an optional file name.
fn copy_file(file: &Option<String>) -> (copy: Option<String>)
    ensures
        copy == *file,
{
    match file {
        Some(name) => Some(name.clone()),
        None => None,
    }
}

} // verus!
