//! The validated command values the command layer hands to the core, and the
//! decision logic of the `config` command: what to print, what to change,
//! and whether to persist.

use vstd::prelude::*;

use crate::config::GlobalConfig;
use crate::engine::EngineType;

verus! {

/// One parsed command-line invocation.
pub struct Cli {
    pub command: Commands,
}

/// The command surface: configure, initialize, build or package.
pub enum Commands {
    /// Configure or view the global settings; without a subcommand, display
    /// the current configuration.
    Config { command: Option<ConfigCommands> },
    /// Initialize a project in the given directory.
    Init { path: Vec<u8> },
    /// Build the project at the given path.
    Build { path: Vec<u8> },
    /// Package the project at the given path into the output directory.
    Package { path: Vec<u8>, output: Option<Vec<u8>> },
}

/// The subcommands of `config`.
pub enum ConfigCommands {
    /// Manage or view engine configurations; without a subcommand, display
    /// the engine-path table.
    Engine { command: Option<EngineCommands> },
}

/// The subcommands of `config engine`.
pub enum EngineCommands {
    /// Add or update the path to an engine's executable or build tool.
    Add { engine_type: EngineType, path: Vec<u8> },
}

/// What a `config` invocation asks of its surroundings: text to print, and
/// whether the (possibly changed) configuration must be persisted.
pub struct ConfigEffect {
    pub output: Option<Vec<u8>>,
    pub save: bool,
}

/// Decides a `config` invocation: bare `config` renders the whole
/// configuration, `config engine` renders the engine-path table, and
/// `config engine add` registers a path — the one mutation of the global
/// configuration, and the only case that asks for it to be persisted.
pub fn handle_config_command(command: Option<ConfigCommands>, global_config: &mut GlobalConfig)
    -> (r: ConfigEffect)
    ensures
        match command {
            None => final(global_config)@ == old(global_config)@ && !r.save && (
            r.output matches Some(o) && o@ == old(global_config)@.spec_to_toml()),
            Some(ConfigCommands::Engine { command: ec }) => match ec {
                None => final(global_config)@ == old(global_config)@ && !r.save && (
                r.output matches Some(o) && o@ == old(global_config)@.spec_render()),
                Some(EngineCommands::Add { engine_type, path }) => final(global_config)@ == old(
                    global_config,
                )@.spec_set(engine_type, path@) && r.save && r.output is None,
            },
        },
{
    match command {
        None => {
            let o = global_config.to_toml_bytes();
            ConfigEffect { output: Some(o), save: false }
        },
        Some(ConfigCommands::Engine { command: ec }) => match ec {
            None => {
                let o = global_config.render_engine_paths();
                ConfigEffect { output: Some(o), save: false }
            },
            Some(EngineCommands::Add { engine_type, path }) => {
                global_config.set_engine_path(engine_type, path);
                ConfigEffect { output: None, save: true }
            },
        },
    }
}

} // verus!
