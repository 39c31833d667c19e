//! Command-line arguments, and which configuration they ask for.
use std::path::PathBuf;
use vstd::prelude::*;

verus! {

/// A filesystem path (`std::path::PathBuf`), carried through unread.
#[verifier::external_type_specification]
#[verifier::external_body]
pub struct ExPathBuf(PathBuf);

/// PoCLImon - A terminal-based creature virtual pet.
pub struct Cli {
    /// Path to config file
    pub config: Option<PathBuf>,
    /// Quick override: show only this creature (by name)
    pub creature: Option<String>,
}

/// Where the game's configuration comes from.
pub enum ConfigSource {
    /// A single creature, by name (`--creature`).
    Creature(String),
    /// The config file at this path (`--config`).
    File(PathBuf),
    /// The config file at the default location.
    DefaultFile,
}

/// The configuration the arguments ask for: a named creature wins over a
/// config path, and with neither the default config file is used.
pub fn config_source(cli: Cli) -> (s: ConfigSource)
    ensures
        cli.creature matches Some(name) ==> s matches ConfigSource::Creature(n) && n@ == name@,
        cli.creature is None && cli.config is Some ==> s == ConfigSource::File(cli.config->0),
        cli.creature is None && cli.config is None ==> s is DefaultFile,
{
    match cli.creature {
        Some(name) => ConfigSource::Creature(name),
        None => match cli.config {
            Some(path) => ConfigSource::File(path),
            None => ConfigSource::DefaultFile,
        },
    }
}

} // verus!
