use aoe::tui::combine_warnings;
use aoe::tui::disables_mouse_on_exit;
use aoe::tui::enables_mouse;
use aoe::tui::mouse_capture_requested;
use aoe::tui::SessionConfig;
use aoe::tui::Startup;
use aoe::tui::StartupEvent;
use aoe::tui::StartupStep;

fn session_with(mouse_capture: bool) -> SessionConfig {
    SessionConfig { mouse_capture }
}

#[test]
fn enabled_config_without_env_requests_capture() {
    assert!(mouse_capture_requested(&session_with(true), None));
}

#[test]
fn disabled_config_opts_out_even_without_env() {
    assert!(!mouse_capture_requested(&session_with(false), None));
}

#[test]
fn env_zero_still_wins_over_enabled_config() {
    assert!(!mouse_capture_requested(&session_with(true), Some("0")));
}

#[test]
fn env_true_does_not_re_enable_disabled_config() {
    assert!(!mouse_capture_requested(&session_with(false), Some("1")));
}

#[test]
fn env_false_counts_in_any_case() {
    for off in ["false", "FALSE", "False"] {
        assert!(!mouse_capture_requested(&SessionConfig::default(), Some(off)));
    }
    for on in ["", "1", "no", "false ", "falsE\u{301}", "00"] {
        assert!(mouse_capture_requested(&SessionConfig::default(), Some(on)), "{on}");
    }
}

#[test]
fn mosh_never_captures_the_mouse() {
    assert!(enables_mouse(&session_with(true), None, false));
    assert!(!enables_mouse(&session_with(true), None, true));
    assert!(disables_mouse_on_exit(false));
    assert!(!disables_mouse_on_exit(true));
}

#[test]
fn warnings_are_joined_by_a_blank_line() {
    let some = |s: &str| Some(s.to_string());
    assert_eq!(combine_warnings(some("a"), some("b")).as_deref(), Some("a\n\nb"));
    assert_eq!(combine_warnings(some("a"), None).as_deref(), Some("a"));
    assert_eq!(combine_warnings(None, some("b")).as_deref(), Some("b"));
    assert_eq!(combine_warnings(None, None), None);
}

#[test]
fn startup_walks_its_checks() {
    let mut startup = Startup::new();
    assert!(matches!(startup.step(StartupEvent::RemoteConfigured(true)), StartupStep::RunRemote));
    assert!(matches!(startup.step(StartupEvent::RemoteConfigured(false)), StartupStep::CheckMigrations));
    assert!(matches!(startup.step(StartupEvent::MigrationsPending(false)), StartupStep::CheckTmux));
    assert!(matches!(startup.step(StartupEvent::MigrationsPending(true)), StartupStep::RunMigrations));
    let mut frames = Vec::new();
    for _ in 0..5 {
        match startup.step(StartupEvent::SpinnerTick) {
            StartupStep::ShowSpinner(shown) => frames.push(shown),
            other => panic!("{other:?}"),
        }
    }
    assert_eq!(
        frames,
        [
            "\r  ◐ Running data migrations...",
            "\r  ◓ Running data migrations...",
            "\r  ◑ Running data migrations...",
            "\r  ◒ Running data migrations...",
            "\r  ◐ Running data migrations..."
        ]
    );
    assert!(matches!(startup.step(StartupEvent::MigrationsDone(Ok(()))), StartupStep::CheckTmux));
    assert!(matches!(
        startup.step(StartupEvent::MigrationsDone(Err("broken".into()))),
        StartupStep::Fail(m) if m == "broken"
    ));
    assert!(matches!(startup.step(StartupEvent::TmuxAvailable(true)), StartupStep::CheckVersion));
    match startup.step(StartupEvent::TmuxAvailable(false)) {
        StartupStep::Exit(lines) => {
            assert_eq!(lines.len(), 6);
            assert_eq!(lines[0], "Error: tmux not found in PATH");
            assert_eq!(lines[5], "  pacman -S tmux        # Arch");
        }
        other => panic!("{other:?}"),
    }
    assert!(matches!(startup.step(StartupEvent::VersionChanged(Ok(false))), StartupStep::CheckStdin));
    assert!(matches!(startup.step(StartupEvent::VersionChanged(Ok(true))), StartupStep::CheckUpdateSettings));
    assert!(matches!(
        startup.step(StartupEvent::VersionChanged(Err("io".into()))),
        StartupStep::Fail(m) if m == "io"
    ));
    assert!(matches!(startup.step(StartupEvent::UpdateChecksEnabled(true)), StartupStep::RefreshUpdates));
    assert!(matches!(startup.step(StartupEvent::UpdateChecksEnabled(false)), StartupStep::CheckStdin));
    assert!(matches!(startup.step(StartupEvent::UpdateChecked), StartupStep::CheckStdin));
    assert!(matches!(startup.step(StartupEvent::StdinIsTerminal(true)), StartupStep::EnterTerminal));
    assert!(matches!(
        startup.step(StartupEvent::StdinIsTerminal(false)),
        StartupStep::Fail(m) if m == "stdin is not a terminal; aoe requires an interactive TTY"
    ));
}
