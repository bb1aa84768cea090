//! A minimal plugin used to exercise the plugin interface.

use vstd::prelude::*;

verus! {

/// A tab holding one editable text field.
#[derive(Clone, Debug)]
pub struct TestTab {
    pub text: String,
}

impl TestTab {
    pub fn new(text: String) -> (r: TestTab)
        ensures
            r.text == text,
    {
        TestTab { text }
    }
}

/// The test plugin itself holds no state.
pub struct TestPlugin;

pub fn create() -> (r: TestPlugin)
    ensures
        r == (TestPlugin {}),
{
    TestPlugin
}

} // verus!
