//! The agent plugin: a chat assistant. This module holds the simpler,
//! sessionless variant of the plugin; the session-aware variant and the data
//! models live in the submodules.

pub mod models;
pub mod plugin;

use vstd::prelude::*;

verus! {

/// The sessionless agent plugin: only the directory its mode scripts are
/// scanned from. The scan itself is file-system work done by the
/// surrounding application.
#[derive(Clone, Debug)]
pub struct AgentPlugin {
    pub script_directory: Option<String>,
}

impl AgentPlugin {
    /// The plugin over an already-loaded script directory; reading the
    /// configuration file is the caller's business.
    pub fn new(script_directory: Option<String>) -> (r: AgentPlugin)
        ensures
            r.script_directory == script_directory,
    {
        AgentPlugin { script_directory }
    }
}

/// The plugin as registered at startup, before any configuration file was
/// read.
pub fn create() -> (r: AgentPlugin)
    ensures
        r.script_directory is None,
{
    AgentPlugin::new(None)
}

} // verus!
