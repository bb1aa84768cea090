//! The session-aware agent plugin: holds the configuration and the state of
//! the session-manager window. Scanning directories for sessions and mode
//! scripts is file-system work done by the surrounding application, which
//! hands the results in as plain values.

use vstd::prelude::*;

use crate::plugins::agent::models::AgentConfig;

verus! {

/// The agent plugin with its configuration and window state.
#[derive(Clone, Debug)]
pub struct AgentPlugin {
    pub config: AgentConfig,
    pub show_session_creator: bool,
    pub new_session_name: String,
}

impl AgentPlugin {
    /// The plugin over an already-loaded configuration; reading the
    /// configuration file is the caller's business.
    pub fn new(config: AgentConfig) -> (r: AgentPlugin)
        ensures
            r.config == config,
            !r.show_session_creator,
            r.new_session_name@ == "New Chat"@,
    {
        AgentPlugin {
            config,
            show_session_creator: false,
            new_session_name: "New Chat".to_owned(),
        }
    }

    /// Open the session-manager window.
    pub fn open_session_creator(&mut self)
        ensures
            *final(self) == (AgentPlugin { show_session_creator: true, ..*old(self) }),
    {
        self.show_session_creator = true;
    }

    /// Close the session-manager window.
    pub fn close_session_creator(&mut self)
        ensures
            *final(self) == (AgentPlugin { show_session_creator: false, ..*old(self) }),
    {
        self.show_session_creator = false;
    }
}

/// The plugin as registered at startup, before any configuration file was
/// read.
pub fn create() -> (r: AgentPlugin)
    ensures
        r.config.script_directory is None,
        r.config.default_chat_dir is None,
        !r.show_session_creator,
        r.new_session_name@ == "New Chat"@,
{
    AgentPlugin::new(AgentConfig::default())
}

} // verus!
