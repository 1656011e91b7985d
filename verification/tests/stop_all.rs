use aoe::cli::stop_all::StopAction;
use aoe::cli::stop_all::StopAll;
use aoe::cli::stop_all::StopAllArgs;
use aoe::cli::stop_all::StopEvent;

#[test]
fn every_surface_is_swept_in_turn() {
    let (mut sweep, action) = StopAll::start(StopAllArgs { timeout_secs: 5, keep_daemon: false });
    assert_eq!(action, StopAction::CheckDaemon);
    let (line, action) = sweep.step(StopEvent::DaemonRuns(true));
    assert_eq!((line, action), (None, StopAction::StopDaemon));
    let (line, action) = sweep.step(StopEvent::DaemonStopped(Ok(())));
    assert_eq!(line.as_deref(), Some("Stopped aoe serve daemon."));
    assert_eq!(action, StopAction::StopWorkers { timeout_secs: 5 });
    let (line, action) = sweep.step(StopEvent::WorkersStopped(Ok(3)));
    assert_eq!(line.as_deref(), Some("Stopped 3 agent worker(s)."));
    assert_eq!(action, StopAction::StopSessions);
    let (line, action) = sweep.step(StopEvent::SessionsStopped(Ok(10)));
    assert_eq!(line.as_deref(), Some("Stopped 10 tmux session(s)."));
    assert_eq!(action, StopAction::Finish);
    assert_eq!(sweep.finish(), (vec![], Ok(())));
}

#[test]
fn failures_are_collected_and_do_not_stop_the_sweep() {
    let (mut sweep, _) = StopAll::start(StopAllArgs { timeout_secs: 1, keep_daemon: false });
    let (line, action) = sweep.step(StopEvent::DaemonStopped(Err("busy".into())));
    assert_eq!((line, action), (None, StopAction::StopWorkers { timeout_secs: 1 }));
    let (line, action) = sweep.step(StopEvent::WorkersStopped(Err("gone".into())));
    assert_eq!((line, action), (None, StopAction::StopSessions));
    let (line, action) = sweep.step(StopEvent::SessionsStopped(Err("none".into())));
    assert_eq!((line, action), (None, StopAction::Finish));
    let (lines, outcome) = sweep.finish();
    assert_eq!(
        lines,
        [
            "stop-all error: daemon: busy",
            "stop-all error: workers: gone",
            "stop-all error: tmux: none"
        ]
    );
    assert_eq!(outcome, Err("stop-all completed with 3 error(s)".to_string()));
}

#[test]
fn the_daemon_can_be_kept() {
    let (mut sweep, action) = StopAll::start(StopAllArgs { timeout_secs: 9, keep_daemon: true });
    assert_eq!(action, StopAction::StopWorkers { timeout_secs: 9 });
    let (line, _) = sweep.step(StopEvent::DaemonRuns(false));
    assert_eq!(line.as_deref(), Some("No aoe serve daemon running."));
}
