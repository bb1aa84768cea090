//! The terminal emulation engine: cells and colors, the escape-sequence
//! parser, the display width of characters, and the screen state the parsed
//! actions mutate.

pub mod cell;
pub mod laws;
pub mod parser;
pub mod session;
pub mod state;
pub mod width;

use vstd::prelude::*;

verus! {

/// The terminal plugin itself holds no state; each terminal tab owns its
/// engine behind the surrounding application's lock.
pub struct TerminalPlugin;

pub fn create() -> (r: TerminalPlugin)
    ensures
        r == (TerminalPlugin {}),
{
    TerminalPlugin
}

} // verus!
