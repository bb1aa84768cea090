//! Focus handling around the native webview. Finding the window and taking
//! focus back from an embedded webview is platform windowing work done by
//! the surrounding application; on platforms without a native webview there
//! is no focus to steal.

use vstd::prelude::*;

verus! {

/// Take keyboard focus back from the embedded webview. Without a native
/// webview there is nothing to do.
pub fn steal_focus_from_webview() {
}

} // verus!
