//! The core of a plugin host: what plugins may ask for and show, which
//! settings and commands they contribute, and how their workers are called.
//!
//! Everything here works on plain values. Processes, pipes, terminals and
//! clocks are the caller's; what they bring is handed in, and what is to be
//! done comes back.

pub mod acp;
pub mod cli;
pub mod github;
pub mod json;
pub mod lists;
pub mod name_map;
pub mod plugin;
pub mod plugin_api;
pub mod sorting;
pub mod telemetry;
pub mod text;
pub mod tui;
