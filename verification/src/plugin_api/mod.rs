//! The manifest vocabulary shared by the host and its plugins.

pub mod capability;
pub mod id;
pub mod manifest;
