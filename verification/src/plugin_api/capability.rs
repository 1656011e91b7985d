//! Runtime capabilities that a plugin may declare.

use vstd::prelude::*;

use crate::text::same_text;

verus! {

/// Runtime capabilities a plugin may declare in its manifest.
///
/// Declared capabilities are shown to the user once at install time and
/// persisted pinned to the manifest hash; the host's JSON-RPC authorization
/// refuses any call whose capability was not granted. Declarative
/// contributions (settings, keybinds, themes, status rules) are implicit and
/// need no capability.
///
/// This gates access to host APIs for cooperative plugins; it is not OS-level
/// process isolation.
#[derive(Debug, Clone, Copy, PartialEq, Eq, PartialOrd, Ord, Hash, Structural)]
pub enum Capability {
    /// Read the session list and instance fields.
    SessionsRead,
    /// Write the plugin's own namespace in per-session `plugin_meta`.
    SessionsMetaWrite,
    /// Receive captured tmux pane text (status detection input).
    PaneRead,
    /// Subscribe to event bus topics declared in the manifest.
    EventsSubscribe,
    /// Publish events under the plugin's own `plugin.<id>.*` topics.
    EventsPublish,
    /// Ask the host to spawn a subprocess.
    ProcessSpawn,
    /// Outbound HTTP through the host.
    NetFetch,
    /// Read files through host RPCs, within granted scopes.
    FsRead,
    /// Write files through host RPCs, within granted scopes.
    FsWrite,
    /// Contribute hook/pane status reconciliation for an agent.
    AgentReconcile,
    /// Contribute agent hook install/uninstall declarations.
    AgentHooks,
    /// Place a contributed CLI command at the top level of the command tree.
    CliTopLevel,
}

/// The kebab-case form of a capability.
pub open spec fn capability_name(cap: Capability) -> Seq<char> {
    match cap {
        Capability::SessionsRead => "sessions-read"@,
        Capability::SessionsMetaWrite => "sessions-meta-write"@,
        Capability::PaneRead => "pane-read"@,
        Capability::EventsSubscribe => "events-subscribe"@,
        Capability::EventsPublish => "events-publish"@,
        Capability::ProcessSpawn => "process-spawn"@,
        Capability::NetFetch => "net-fetch"@,
        Capability::FsRead => "fs-read"@,
        Capability::FsWrite => "fs-write"@,
        Capability::AgentReconcile => "agent-reconcile"@,
        Capability::AgentHooks => "agent-hooks"@,
        Capability::CliTopLevel => "cli-top-level"@,
    }
}

impl Capability {
    /// Kebab-case form used in manifests, grant files, and prompts.
    pub fn as_str(self) -> (r: &'static str)
        ensures
            r@ == capability_name(self),
    {
        match self {
            Capability::SessionsRead => "sessions-read",
            Capability::SessionsMetaWrite => "sessions-meta-write",
            Capability::PaneRead => "pane-read",
            Capability::EventsSubscribe => "events-subscribe",
            Capability::EventsPublish => "events-publish",
            Capability::ProcessSpawn => "process-spawn",
            Capability::NetFetch => "net-fetch",
            Capability::FsRead => "fs-read",
            Capability::FsWrite => "fs-write",
            Capability::AgentReconcile => "agent-reconcile",
            Capability::AgentHooks => "agent-hooks",
            Capability::CliTopLevel => "cli-top-level",
        }
    }
}

/// The capability with this name.
pub open spec fn capability_named(name: Seq<char>) -> Option<Capability> {
    if exists|cap: Capability| #[trigger] capability_name(cap) == name {
        Some(choose|cap: Capability| #[trigger] capability_name(cap) == name)
    } else {
        None
    }
}

impl Capability {
    /// The capability with a kebab-case name; `None` of an unknown one.
    pub fn from_name(name: &str) -> (r: Option<Capability>)
        ensures
            r == capability_named(name@),
            match r {
                Some(cap) => capability_name(cap) == name@,
                None => forall|cap: Capability| #[trigger] capability_name(cap) != name@,
            },
    {
        let all = vec![
            Capability::SessionsRead,
            Capability::SessionsMetaWrite,
            Capability::PaneRead,
            Capability::EventsSubscribe,
            Capability::EventsPublish,
            Capability::ProcessSpawn,
            Capability::NetFetch,
            Capability::FsRead,
            Capability::FsWrite,
            Capability::AgentReconcile,
            Capability::AgentHooks,
            Capability::CliTopLevel,
        ];
        let mut i: usize = 0;
        while i < all.len()
            invariant
                i <= all.len(),
                all@ == seq![
                    Capability::SessionsRead,
                    Capability::SessionsMetaWrite,
                    Capability::PaneRead,
                    Capability::EventsSubscribe,
                    Capability::EventsPublish,
                    Capability::ProcessSpawn,
                    Capability::NetFetch,
                    Capability::FsRead,
                    Capability::FsWrite,
                    Capability::AgentReconcile,
                    Capability::AgentHooks,
                    Capability::CliTopLevel,
                ],
                forall|j: int| 0 <= j < i ==> capability_name(#[trigger] all@[j]) != name@,
            decreases all.len() - i,
        {
            let cap = all[i];
            if same_text(cap.as_str(), name) {
                proof {
                    let named = capability_named(name@)->0;
                    assert(capability_name(cap) == name@);
                    capability_names_differ(named, cap);
                }
                return Some(cap);
            }
            i += 1;
        }
        assert forall|cap: Capability| #[trigger] capability_name(cap) != name@ by {
            let k: int = match cap {
                Capability::SessionsRead => 0,
                Capability::SessionsMetaWrite => 1,
                Capability::PaneRead => 2,
                Capability::EventsSubscribe => 3,
                Capability::EventsPublish => 4,
                Capability::ProcessSpawn => 5,
                Capability::NetFetch => 6,
                Capability::FsRead => 7,
                Capability::FsWrite => 8,
                Capability::AgentReconcile => 9,
                Capability::AgentHooks => 10,
                Capability::CliTopLevel => 11,
            };
            assert(all@[k] == cap);
        }
        None
    }
}

/// Different capabilities have different names, so a name in a manifest or a
/// grant file stands for one capability.
pub proof fn capability_names_differ(a: Capability, b: Capability)
    requires
        capability_name(a) == capability_name(b),
    ensures
        a == b,
{
    reveal_strlit("sessions-read");
    reveal_strlit("sessions-meta-write");
    reveal_strlit("pane-read");
    reveal_strlit("events-subscribe");
    reveal_strlit("events-publish");
    reveal_strlit("process-spawn");
    reveal_strlit("net-fetch");
    reveal_strlit("fs-read");
    reveal_strlit("fs-write");
    reveal_strlit("agent-reconcile");
    reveal_strlit("agent-hooks");
    reveal_strlit("cli-top-level");
    // The length tells most names apart, the first or the fourth character
    // the others.
    let x = capability_name(a);
    let y = capability_name(b);
    assert(x.len() == y.len() && x[0] == y[0] && x[3] == y[3]);
}

/// Every capability is known by its own name in manifests and grant files, and
/// by no other.
pub proof fn capabilities_go_by_name(cap: Capability, name: Seq<char>)
    ensures
        capability_named(capability_name(cap)) == Some(cap),
        capability_named(name) matches Some(found) ==> capability_name(found) == name,
        capability_name(Capability::SessionsRead) == "sessions-read"@,
        capability_name(Capability::SessionsMetaWrite) == "sessions-meta-write"@,
        capability_name(Capability::PaneRead) == "pane-read"@,
        capability_name(Capability::EventsSubscribe) == "events-subscribe"@,
        capability_name(Capability::EventsPublish) == "events-publish"@,
        capability_name(Capability::ProcessSpawn) == "process-spawn"@,
        capability_name(Capability::NetFetch) == "net-fetch"@,
        capability_name(Capability::FsRead) == "fs-read"@,
        capability_name(Capability::FsWrite) == "fs-write"@,
        capability_name(Capability::AgentReconcile) == "agent-reconcile"@,
        capability_name(Capability::AgentHooks) == "agent-hooks"@,
        capability_name(Capability::CliTopLevel) == "cli-top-level"@,
{
    let found = capability_named(capability_name(cap));
    assert(exists|c: Capability| #[trigger] capability_name(c) == capability_name(cap));
    capability_names_differ(found->0, cap);
}

} // verus!
