//! Small widgets of the browser plugin. Drawing is the surrounding
//! application's business; here lives only the widget's own state.

use vstd::prelude::*;

verus! {

/// A round navigation button showing a fixed glyph.
pub struct NavButton {
    pub text: &'static str,
}

impl NavButton {
    pub fn new(text: &'static str) -> (r: NavButton)
        ensures
            r.text@ == text@,
    {
        NavButton { text }
    }
}

} // verus!
