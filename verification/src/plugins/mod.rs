//! The plugins that ship with the framework. The terminal plugin holds the
//! verified terminal emulation engine; the others are small data models
//! whose user-interface layers live outside this crate.

pub mod agent;
pub mod browser;
pub mod code_editor;
pub mod core_tabs;
pub mod file_manager;
pub mod manager;
pub mod terminal;
pub mod test_plugin;
