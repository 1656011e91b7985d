//! `aoe stop-all`: a panic button that stops then force-kills everything aoe
//! is running, in one command. Tears down the serve daemon, every agent
//! worker, and every aoe tmux session. Each surface is attempted
//! independently; one failing surface never aborts the others, and the exit
//! code is non-zero only if something failed.
//!
//! [`StopAll`] says what to attempt next; the caller attempts it and reports
//! how it went.

use vstd::prelude::*;

use crate::text;
use crate::text::concat2;
use crate::text::concat3;
use crate::text::decimal_of;

verus! {

/// What `stop-all` was asked.
#[derive(Debug, Clone, Copy, PartialEq, Eq, Structural)]
pub struct StopAllArgs {
    /// Grace period in seconds before force-killing agent workers. tmux
    /// sessions and the daemon use their own built-in grace.
    pub timeout_secs: u64,
    /// Leave the `aoe serve` daemon running; stop only workers and tmux
    /// sessions.
    pub keep_daemon: bool,
}

/// What to attempt next.
#[derive(Debug, Clone, Copy, PartialEq, Eq, Structural)]
pub enum StopAction {
    /// See whether the daemon runs.
    CheckDaemon,
    StopDaemon,
    StopWorkers { timeout_secs: u64 },
    StopSessions,
    /// Nothing is left; end with [`StopAll::finish`].
    Finish,
}

/// How an attempt went. Counts are of what was stopped.
#[derive(Debug)]
pub enum StopEvent {
    DaemonRuns(bool),
    DaemonStopped(Result<(), String>),
    WorkersStopped(Result<u64, String>),
    SessionsStopped(Result<u64, String>),
}

/// The sweep so far: what it was asked and what failed.
#[derive(Debug)]
pub struct StopAll {
    pub args: StopAllArgs,
    pub errors: Vec<String>,
}

/// What contracts say of the sweep.
pub struct StopAllModel {
    pub args: StopAllArgs,
    pub errors: Seq<Seq<char>>,
}

impl View for StopAll {
    type V = StopAllModel;

    open spec fn view(&self) -> StopAllModel {
        StopAllModel { args: self.args, errors: text::texts(self.errors@) }
    }
}

/// The first thing to attempt. The daemon comes first: removing the
/// orchestrator means the worker sweep cannot race a daemon-driven respawn.
pub open spec fn first_action(args: StopAllArgs) -> StopAction {
    if args.keep_daemon {
        StopAction::StopWorkers { timeout_secs: args.timeout_secs }
    } else {
        StopAction::CheckDaemon
    }
}

/// What follows an event, whether it reports a success or a failure.
pub open spec fn next_action(args: StopAllArgs, event: StopEvent) -> StopAction {
    match event {
        StopEvent::DaemonRuns(true) => StopAction::StopDaemon,
        StopEvent::DaemonRuns(false) => StopAction::StopWorkers {
            timeout_secs: args.timeout_secs,
        },
        StopEvent::DaemonStopped(_) => StopAction::StopWorkers {
            timeout_secs: args.timeout_secs,
        },
        StopEvent::WorkersStopped(_) => StopAction::StopSessions,
        StopEvent::SessionsStopped(_) => StopAction::Finish,
    }
}

/// What is printed on an event.
pub open spec fn event_line(event: StopEvent) -> Option<Seq<char>> {
    match event {
        StopEvent::DaemonRuns(true) => None,
        StopEvent::DaemonRuns(false) => Some("No aoe serve daemon running."@),
        StopEvent::DaemonStopped(Ok(_)) => Some("Stopped aoe serve daemon."@),
        StopEvent::WorkersStopped(Ok(n)) => Some(
            "Stopped "@ + text::decimal(n as nat) + " agent worker(s)."@,
        ),
        StopEvent::SessionsStopped(Ok(n)) => Some(
            "Stopped "@ + text::decimal(n as nat) + " tmux session(s)."@,
        ),
        _ => None,
    }
}

/// What an event adds to the errors.
pub open spec fn event_error(event: StopEvent) -> Option<Seq<char>> {
    match event {
        StopEvent::DaemonStopped(Err(e)) => Some("daemon: "@ + e@),
        StopEvent::WorkersStopped(Err(e)) => Some("workers: "@ + e@),
        StopEvent::SessionsStopped(Err(e)) => Some("tmux: "@ + e@),
        _ => None,
    }
}

/// The errors after an event.
pub open spec fn errors_after(errors: Seq<Seq<char>>, event: StopEvent) -> Seq<Seq<char>> {
    match event_error(event) {
        Some(error) => errors.push(error),
        None => errors,
    }
}

impl StopAll {
    /// Begin the sweep.
    pub fn start(args: StopAllArgs) -> (r: (Self, StopAction))
        ensures
            r.0@ == (StopAllModel { args, errors: seq![] }),
            r.1 == first_action(args),
    {
        let sweep = StopAll { args, errors: Vec::new() };
        assert(sweep@.errors =~= seq![]);
        let action = if args.keep_daemon {
            StopAction::StopWorkers { timeout_secs: args.timeout_secs }
        } else {
            StopAction::CheckDaemon
        };
        (sweep, action)
    }

    fn fail(&mut self, surface: &str, error: &str)
        ensures
            final(self)@ == (StopAllModel {
                errors: old(self)@.errors.push(surface@ + error@),
                ..old(self)@
            }),
    {
        let ghost before = text::texts(self.errors@);
        let message = concat2(surface, error);
        let ghost model = message@;
        self.errors.push(message);
        assert(text::texts(self.errors@) =~= before.push(model));
    }

    /// Take in how an attempt went: the line to print, and what to attempt
    /// next.
    pub fn step(&mut self, event: StopEvent) -> (r: (Option<String>, StopAction))
        ensures
            text::optional_text(r.0) == event_line(event),
            r.1 == next_action(old(self).args, event),
            final(self)@ == (StopAllModel {
                errors: errors_after(old(self)@.errors, event),
                ..old(self)@
            }),
    {
        let sweep_workers = StopAction::StopWorkers { timeout_secs: self.args.timeout_secs };
        match event {
            StopEvent::DaemonRuns(running) => if running {
                (None, StopAction::StopDaemon)
            } else {
                (Some("No aoe serve daemon running.".to_owned()), sweep_workers)
            },
            StopEvent::DaemonStopped(Ok(_)) => (
                Some("Stopped aoe serve daemon.".to_owned()),
                sweep_workers,
            ),
            StopEvent::DaemonStopped(Err(e)) => {
                self.fail("daemon: ", e.as_str());
                (None, sweep_workers)
            },
            StopEvent::WorkersStopped(Ok(n)) => {
                let line = concat3("Stopped ", decimal_of(n).as_str(), " agent worker(s).");
                (Some(line), StopAction::StopSessions)
            },
            StopEvent::WorkersStopped(Err(e)) => {
                self.fail("workers: ", e.as_str());
                (None, StopAction::StopSessions)
            },
            StopEvent::SessionsStopped(Ok(n)) => {
                let line = concat3("Stopped ", decimal_of(n).as_str(), " tmux session(s).");
                (Some(line), StopAction::Finish)
            },
            StopEvent::SessionsStopped(Err(e)) => {
                self.fail("tmux: ", e.as_str());
                (None, StopAction::Finish)
            },
        }
    }

    /// End the sweep: the lines for standard error, and the outcome.
    pub fn finish(self) -> (r: (Vec<String>, Result<(), String>))
        ensures
            text::texts(r.0@) == self@.errors.map_values(
                |e: Seq<char>| "stop-all error: "@ + e,
            ),
            text::refusal(r.1) == (if self@.errors.len() == 0 {
                None
            } else {
                Some(
                    "stop-all completed with "@ + text::decimal(self@.errors.len())
                        + " error(s)"@,
                )
            }),
    {
        let errors = self.errors;
        let mut lines: Vec<String> = Vec::new();
        let mut i: usize = 0;
        while i < errors.len()
            invariant
                i <= errors.len(),
                lines.len() == i,
                forall|j: int|
                    0 <= j < i ==> (#[trigger] lines@[j])@ == "stop-all error: "@ + errors@[j]@,
            decreases errors.len() - i,
        {
            lines.push(concat2("stop-all error: ", errors[i].as_str()));
            i += 1;
        }
        assert(text::texts(lines@) =~= text::texts(errors@).map_values(
            |e: Seq<char>| "stop-all error: "@ + e,
        ));
        if errors.len() == 0 {
            (lines, Ok(()))
        } else {
            let count = decimal_of(errors.len() as u64);
            let message = concat3("stop-all completed with ", count.as_str(), " error(s)");
            (lines, Err(message))
        }
    }
}

/// Whether an event reports on an action.
pub open spec fn answers(event: StopEvent, action: StopAction) -> bool {
    match action {
        StopAction::CheckDaemon => event is DaemonRuns,
        StopAction::StopDaemon => event is DaemonStopped,
        StopAction::StopWorkers { .. } => event is WorkersStopped,
        StopAction::StopSessions => event is SessionsStopped,
        StopAction::Finish => false,
    }
}

/// Whether events are the whole run of a sweep from an action to its end.
pub open spec fn whole_run(args: StopAllArgs, action: StopAction, events: Seq<StopEvent>) -> bool
    decreases events.len(),
{
    if events.len() == 0 {
        action is Finish
    } else {
        answers(events[0], action) && whole_run(
            args,
            next_action(args, events[0]),
            events.drop_first(),
        )
    }
}

/// The errors of a run.
pub open spec fn run_errors(errors: Seq<Seq<char>>, events: Seq<StopEvent>) -> Seq<Seq<char>>
    decreases events.len(),
{
    if events.len() == 0 {
        errors
    } else {
        run_errors(errors_after(errors, events[0]), events.drop_first())
    }
}

/// Whatever fails, the workers and then the sessions are swept, and nothing
/// comes after them: one failing surface never aborts the others.
pub proof fn every_surface_is_attempted(args: StopAllArgs, events: Seq<StopEvent>)
    requires
        whole_run(args, first_action(args), events),
    ensures
        events.len() >= 2,
        events[events.len() - 2] is WorkersStopped,
        events[events.len() - 1] is SessionsStopped,
        args.keep_daemon ==> events.len() == 2,
        !args.keep_daemon ==> events[0] is DaemonRuns,
        !args.keep_daemon && events[0] == StopEvent::DaemonRuns(true) ==> events[1]
            is DaemonStopped,
{
    reveal_with_fuel(whole_run, 6);
    let rest = events.drop_first();
    assert(events.len() > 0);
    if args.keep_daemon {
        assert(rest[0] == events[1]);
    } else {
        assert(rest[0] == events[1]);
        assert(rest.drop_first()[0] == events[2]);
        if events[0] == StopEvent::DaemonRuns(true) {
            assert(rest.drop_first().drop_first()[0] == events[3]);
        }
    }
}

proof fn run_errors_grow(errors: Seq<Seq<char>>, events: Seq<StopEvent>)
    ensures
        run_errors(errors, events).len() == errors.len() <==> forall|i: int|
            0 <= i < events.len() ==> event_error(#[trigger] events[i]) is None,
        run_errors(errors, events).len() >= errors.len(),
    decreases events.len(),
{
    if events.len() > 0 {
        let rest = events.drop_first();
        run_errors_grow(errors_after(errors, events[0]), rest);
        if forall|i: int| 0 <= i < events.len() ==> event_error(#[trigger] events[i]) is None {
            assert forall|i: int| 0 <= i < rest.len() implies event_error(#[trigger] rest[i])
                is None by {
                assert(rest[i] == events[i + 1]);
            }
        }
        if run_errors(errors, events).len() == errors.len() {
            assert(event_error(events[0]) is None);
            assert forall|i: int| 0 <= i < events.len() implies event_error(#[trigger] events[i])
                is None by {
                if i > 0 {
                    assert(events[i] == rest[i - 1]);
                }
            }
        }
    }
}

/// The sweep ends without an error exactly where no surface failed.
pub proof fn exit_tells_of_failures(events: Seq<StopEvent>)
    ensures
        run_errors(seq![], events).len() == 0 <==> forall|i: int|
            0 <= i < events.len() ==> event_error(#[trigger] events[i]) is None,
{
    run_errors_grow(seq![], events);
}

/// The sweep goes on from whatever happened: a daemon that runs is stopped,
/// then the workers get the grace period that was asked for, then the sessions
/// are stopped, and then the sweep ends. A daemon to be kept is not looked for.
pub proof fn sweeps_go_on(
    args: StopAllArgs,
    stopped: Result<(), String>,
    counted: Result<u64, String>,
)
    ensures
        args.keep_daemon ==> first_action(args) == (StopAction::StopWorkers {
            timeout_secs: args.timeout_secs,
        }),
        !args.keep_daemon ==> first_action(args) is CheckDaemon,
        next_action(args, StopEvent::DaemonRuns(true)) is StopDaemon,
        next_action(args, StopEvent::DaemonRuns(false)) == (StopAction::StopWorkers {
            timeout_secs: args.timeout_secs,
        }),
        next_action(args, StopEvent::DaemonStopped(stopped)) == (StopAction::StopWorkers {
            timeout_secs: args.timeout_secs,
        }),
        next_action(args, StopEvent::WorkersStopped(counted)) is StopSessions,
        next_action(args, StopEvent::SessionsStopped(counted)) is Finish,
{
}

/// Each success is told, with the number that was stopped, and each failure is
/// kept under the name of its surface.
pub proof fn outcomes_are_told(n: u64, message: String)
    ensures
        event_line(StopEvent::DaemonRuns(false)) == Some("No aoe serve daemon running."@),
        event_line(StopEvent::DaemonRuns(true)) is None,
        event_line(StopEvent::DaemonStopped(Ok(()))) == Some("Stopped aoe serve daemon."@),
        event_line(StopEvent::WorkersStopped(Ok(n))) == Some(
            "Stopped "@ + text::decimal(n as nat) + " agent worker(s)."@,
        ),
        event_line(StopEvent::SessionsStopped(Ok(n))) == Some(
            "Stopped "@ + text::decimal(n as nat) + " tmux session(s)."@,
        ),
        event_line(StopEvent::DaemonStopped(Err(message))) is None,
        event_line(StopEvent::WorkersStopped(Err(message))) is None,
        event_line(StopEvent::SessionsStopped(Err(message))) is None,
        event_error(StopEvent::DaemonStopped(Err(message))) == Some("daemon: "@ + message@),
        event_error(StopEvent::WorkersStopped(Err(message))) == Some("workers: "@ + message@),
        event_error(StopEvent::SessionsStopped(Err(message))) == Some("tmux: "@ + message@),
        event_error(StopEvent::DaemonStopped(Ok(()))) is None,
        event_error(StopEvent::WorkersStopped(Ok(n))) is None,
        event_error(StopEvent::SessionsStopped(Ok(n))) is None,
        event_error(StopEvent::DaemonRuns(true)) is None,
        event_error(StopEvent::DaemonRuns(false)) is None,
{
}

/// Errors are kept in the order in which they came, and none is lost.
pub proof fn errors_are_kept_in_order(
    errors: Seq<Seq<char>>,
    events: Seq<StopEvent>,
    event: StopEvent,
)
    ensures
        event_error(event) matches Some(error) ==> errors_after(errors, event) == errors.push(error),
        event_error(event) is None ==> errors_after(errors, event) == errors,
        run_errors(errors, Seq::empty()) == errors,
        run_errors(errors, events.push(event)) == errors_after(run_errors(errors, events), event),
    decreases events.len(),
{
    let all = events.push(event);
    if events.len() > 0 {
        assert(all[0] == events[0]);
        assert(all.drop_first() =~= events.drop_first().push(event));
        errors_are_kept_in_order(errors_after(errors, events[0]), events.drop_first(), event);
    } else {
        assert(all.drop_first() =~= Seq::<StopEvent>::empty());
        assert(events =~= Seq::<StopEvent>::empty());
        assert(all[0] == event);
        reveal_with_fuel(run_errors, 2);
    }
}

/// What contracts say of a sweep are its arguments and its errors, in order.
pub proof fn sweep_models_are_faithful(sweep: StopAll)
    ensures
        sweep@.args == sweep.args,
        sweep@.errors == text::texts(sweep.errors@),
{
}

} // verus!
