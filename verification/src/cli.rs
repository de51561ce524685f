//! The command-line surface, as plain data, and the dispatch from a
//! parsed invocation to the operation it calls for. Argument parsing and
//! printing happen outside the library; the decision happens here.

use vstd::prelude::*;

verus! {

/// One parsed invocation of the tool.
pub struct Cli {
    /// The bare version flag, answered before anything else.
    pub version: bool,
    pub command: Option<Command>,
}

pub enum Command {
    Default(DefaultCommand),
    Use(UseCommand),
    Remove(RemoveCommand),
    List(ListCommand),
    ListRemote(ListRemoteCommand),
}

/// Reserved: setting a default version is not implemented.
pub struct DefaultCommand {
    pub version: String,
}

/// Install-or-switch; without an argument the configuration file is
/// consulted.
pub struct UseCommand {
    pub version: Option<String>,
}

pub struct RemoveCommand {
    pub version: String,
}

pub struct ListCommand {}

pub struct ListRemoteCommand {}

/// The operation one invocation calls for.
pub enum Plan {
    /// Print the tool's own version.
    ShowVersion,
    /// Point at the help, as no command was given.
    Help,
    /// Announce that the default command is not implemented yet.
    Unimplemented,
    /// Run the `use` workflow for this requested version.
    UseVersion { version: String },
    /// Run the `use` workflow for the configuration file's version.
    UseFromConfig,
    /// Remove this requested version from the store.
    RemoveVersion { version: String },
    /// List the store's versions.
    ListLocal,
    /// List the remote tags.
    ListRemote,
}

/// Which operation a parsed command line calls for: the version flag wins
/// over any command, no command points at the help, and each command maps
/// to its operation, version arguments passed through as given.
pub fn dispatch(cli: Cli) -> (r: Plan)
    ensures
        match r {
            Plan::ShowVersion => cli.version,
            Plan::Help => !cli.version && cli.command is None,
            Plan::Unimplemented => !cli.version && cli.command matches Some(Command::Default(_)),
            Plan::UseVersion { version } => !cli.version && (cli.command matches Some(
                Command::Use(UseCommand { version: Some(v) }),
            ) && version@ == v@),
            Plan::UseFromConfig => !cli.version && cli.command matches Some(
                Command::Use(UseCommand { version: None }),
            ),
            Plan::RemoveVersion { version } => !cli.version && (cli.command matches Some(
                Command::Remove(RemoveCommand { version: v }),
            ) && version@ == v@),
            Plan::ListLocal => !cli.version && cli.command matches Some(Command::List(_)),
            Plan::ListRemote => !cli.version && cli.command matches Some(Command::ListRemote(_)),
        },
{
    if cli.version {
        return Plan::ShowVersion;
    }
    match cli.command {
        None => Plan::Help,
        Some(Command::Default(_)) => Plan::Unimplemented,
        Some(Command::Use(UseCommand { version })) => match version {
            Some(version) => Plan::UseVersion { version },
            None => Plan::UseFromConfig,
        },
        Some(Command::Remove(RemoveCommand { version })) => Plan::RemoveVersion { version },
        Some(Command::List(_)) => Plan::ListLocal,
        Some(Command::ListRemote(_)) => Plan::ListRemote,
    }
}

} // verus!
