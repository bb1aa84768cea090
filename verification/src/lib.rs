//! A plugin-based editor framework core, centred on its terminal emulation
//! engine: a byte-stream interpreter for ANSI/VT control sequences and the
//! character grid it mutates (primary and alternate screens, cursor state,
//! scroll regions, scrollback history, character attributes).

pub mod plugins;
