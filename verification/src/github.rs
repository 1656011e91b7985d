//! How GitHub is addressed.

use vstd::prelude::*;

verus! {

/// Default GitHub REST API base.
pub const DEFAULT_GITHUB_API_BASE: &'static str = "https://api.github.com";

/// User-Agent sent on every GitHub request (GitHub requires one).
pub const DEFAULT_USER_AGENT: &'static str = "agent-of-empires";

} // verus!
