//! The built-in tabs and the core plugin: a tab that keeps a layout slot
//! occupied, a plain text editor tab, and the plugin that creates them and
//! numbers untitled files.

use vstd::prelude::*;

verus! {

/// A tab with nothing in it, used to keep a layout slot occupied.
#[derive(Clone, Debug)]
pub struct EmptyTab;

/// A plain text editor tab.
#[derive(Clone, Debug)]
pub struct EditorTab {
    pub name: String,
    pub content: String,
}

/// The core plugin: numbers fresh untitled files and remembers whether the
/// about window is open.
#[derive(Clone, Debug)]
pub struct CorePlugin {
    pub new_file_counter: usize,
    pub show_about: bool,
}

impl Default for CorePlugin {
    fn default() -> (r: CorePlugin)
        ensures
            r.new_file_counter == 1,
            !r.show_about,
    {
        CorePlugin { new_file_counter: 1, show_about: false }
    }
}

impl CorePlugin {
    /// The number for the next untitled file; each call hands out the next
    /// one.
    pub fn next_file_number(&mut self) -> (r: usize)
        requires
            old(self).new_file_counter < usize::MAX,
        ensures
            r == old(self).new_file_counter,
            final(self).new_file_counter == old(self).new_file_counter + 1,
            final(self).show_about == old(self).show_about,
    {
        let r = self.new_file_counter;
        self.new_file_counter = self.new_file_counter + 1;
        r
    }
}

} // verus!
