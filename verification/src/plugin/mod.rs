//! The host side of the plugin system.

pub mod cli_graft;
pub mod discover;
pub mod host;
pub mod payload;
pub mod registry;
pub mod sandbox;
pub mod settings;
pub mod ui;
