//! The launcher plugin: the menu entry that opens the plugin-manager tab.
//! The manager tab itself drives cargo and edits manifest files, all
//! file-system and process work done by the surrounding application.

use vstd::prelude::*;

verus! {

/// The default for a configuration switch that is on unless the file says
/// otherwise.
pub fn default_true() -> (r: bool)
    ensures
        r,
{
    true
}

/// The launcher plugin itself holds no state.
pub struct PluginLauncher;

pub fn create() -> (r: PluginLauncher)
    ensures
        r == (PluginLauncher {}),
{
    PluginLauncher
}

} // verus!
