//! Agent sessions of the daemon.

pub mod session_tee;
