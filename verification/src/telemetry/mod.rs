//! What the usage snapshot carries.

pub mod plugins;
