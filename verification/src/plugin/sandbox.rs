//! OS-level isolation backends for plugin workers.
//!
//! Capability gating at the host API boundary stops cooperative plugins from
//! drifting beyond their manifest; it does NOT confine the worker process,
//! which can open files, sockets, and exec children regardless of what the
//! host RPC layer refuses. Real confinement is this trait's job. The install
//! prompt wording derives from [`SandboxBackend::isolation_summary`] so the
//! UI never overstates what is enforced.

use vstd::prelude::*;

use crate::text;
use crate::text::copy_texts;

verus! {

/// A process to start.
#[derive(Debug)]
pub struct CommandPlan {
    pub program: String,
    pub args: Vec<String>,
    pub workdir: String,
}

/// What contracts say of a process to start.
pub struct CommandPlanModel {
    pub program: Seq<char>,
    pub args: Seq<Seq<char>>,
    pub workdir: Seq<char>,
}

impl View for CommandPlan {
    type V = CommandPlanModel;

    open spec fn view(&self) -> CommandPlanModel {
        CommandPlanModel {
            program: self.program@,
            args: text::texts(self.args@),
            workdir: self.workdir@,
        }
    }
}

/// A way to start workers.
pub trait SandboxBackend {
    /// The name of the backend.
    spec fn backend_name() -> Seq<char>;

    /// What the backend promises.
    spec fn summary() -> Seq<char>;

    /// The process that the backend starts.
    spec fn planned(
        entrypoint: Seq<char>,
        args: Seq<Seq<char>>,
        workdir: Seq<char>,
    ) -> CommandPlanModel;

    fn name(&self) -> (r: &'static str)
        ensures
            r@ == Self::backend_name(),
    ;

    /// One honest sentence for prompts and `aoe plugin info`.
    fn isolation_summary(&self) -> (r: &'static str)
        ensures
            r@ == Self::summary(),
    ;

    /// Plan the worker process. Implementations decide cwd and any wrapper
    /// executable.
    fn command(&self, entrypoint: &str, args: &Vec<String>, workdir: &str) -> (r: CommandPlan)
        ensures
            r@ == Self::planned(entrypoint@, text::texts(args@), workdir@),
    ;
}

/// Spawn directly with the host's environment. No confinement.
#[derive(Debug, Clone, Copy, PartialEq, Eq, Structural)]
pub struct NoSandbox;

impl SandboxBackend for NoSandbox {
    open spec fn backend_name() -> Seq<char> {
        "none"@
    }

    open spec fn summary() -> Seq<char> {
        "runs as a regular process with your user's full permissions; capability gating limits only what it can ask aoe to do, not what it can do itself"@
    }

    /// The entrypoint itself, with its arguments, in its directory.
    open spec fn planned(
        entrypoint: Seq<char>,
        args: Seq<Seq<char>>,
        workdir: Seq<char>,
    ) -> CommandPlanModel {
        CommandPlanModel { program: entrypoint, args, workdir }
    }

    fn name(&self) -> (r: &'static str) {
        "none"
    }

    fn isolation_summary(&self) -> (r: &'static str) {
        "runs as a regular process with your user's full permissions; capability gating limits only what it can ask aoe to do, not what it can do itself"
    }

    fn command(&self, entrypoint: &str, args: &Vec<String>, workdir: &str) -> (r: CommandPlan) {
        CommandPlan {
            program: entrypoint.to_owned(),
            args: copy_texts(args),
            workdir: workdir.to_owned(),
        }
    }
}

/// The backend used for every worker spawn.
pub fn backend() -> (r: NoSandbox)
    ensures
        r == NoSandbox,
{
    NoSandbox
}

/// Without a sandbox the worker is the entrypoint itself, with its arguments
/// and in its directory, and the name and the promise say that nothing confines
/// it.
pub proof fn nothing_is_wrapped_around_workers(
    entrypoint: Seq<char>,
    args: Seq<Seq<char>>,
    workdir: Seq<char>,
)
    ensures
        <NoSandbox as SandboxBackend>::planned(entrypoint, args, workdir).program == entrypoint,
        <NoSandbox as SandboxBackend>::planned(entrypoint, args, workdir).args == args,
        <NoSandbox as SandboxBackend>::planned(entrypoint, args, workdir).workdir == workdir,
        <NoSandbox as SandboxBackend>::backend_name() == "none"@,
        "runs as a regular process with your user's full permissions"@.is_prefix_of(
            <NoSandbox as SandboxBackend>::summary(),
        ),
{
    reveal_strlit("runs as a regular process with your user's full permissions");
    reveal_strlit(
        "runs as a regular process with your user's full permissions; capability gating limits only what it can ask aoe to do, not what it can do itself",
    );
    let head = "runs as a regular process with your user's full permissions"@;
    let whole = <NoSandbox as SandboxBackend>::summary();
    assert(head =~= whole.subrange(0, head.len() as int));
}

/// What contracts say of a command line are all its parts.
pub proof fn plan_models_are_faithful(plan: CommandPlan)
    ensures
        plan@.program == plan.program@,
        plan@.args == text::texts(plan.args@),
        plan@.workdir == plan.workdir@,
{
}

} // verus!
