//! The structured view of one session.

pub mod queue;
