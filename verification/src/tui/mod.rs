//! Terminal user interface: what it shows and decides, without a terminal.

use vstd::prelude::*;

use crate::text;
use crate::text::concat3;
use crate::text::same_text;

pub mod dialogs;
pub mod structured_view;

verus! {

/// The part of the session configuration that the terminal setup reads.
#[derive(Debug, Clone, Copy, PartialEq, Eq, Structural)]
pub struct SessionConfig {
    /// The Settings entry Interaction > Mouse Capture.
    pub mouse_capture: bool,
}

impl Default for SessionConfig {
    /// Capture is on, for the mouse-wheel scroll of the preview pane.
    fn default() -> (r: Self)
        ensures
            r.mouse_capture,
    {
        SessionConfig { mouse_capture: true }
    }
}

/// The lower-case form of an ASCII letter; any other character as it is.
pub open spec fn ascii_lower(c: char) -> char {
    if 'A' <= c <= 'Z' {
        (c as int + 32) as char
    } else {
        c
    }
}

/// Whether two texts are the same up to the case of ASCII letters.
pub open spec fn same_ignoring_case(a: Seq<char>, b: Seq<char>) -> bool {
    a.len() == b.len() && forall|i: int|
        0 <= i < a.len() ==> ascii_lower(#[trigger] a[i]) == ascii_lower(b[i])
}

/// Whether the environment leaves mouse capture on: `0` and `false` switch it
/// off, any other value or none does not.
pub open spec fn env_allows(value: Option<Seq<char>>) -> bool {
    match value {
        Some(v) => !(v == "0"@ || same_ignoring_case(v, "false"@)),
        None => true,
    }
}

fn lower(c: char) -> (r: char)
    ensures
        r == ascii_lower(c),
{
    if 'A' <= c && c <= 'Z' {
        let code: u8 = c as u8;
        (code + 32) as char
    } else {
        c
    }
}

fn equals_ignoring_case(a: &str, b: &str) -> (r: bool)
    ensures
        r == same_ignoring_case(a@, b@),
{
    let n = a.unicode_len();
    if n != b.unicode_len() {
        return false;
    }
    let mut i: usize = 0;
    while i < n
        invariant
            i <= n,
            n == a@.len(),
            n == b@.len(),
            forall|j: int| 0 <= j < i ==> ascii_lower(#[trigger] a@[j]) == ascii_lower(b@[j]),
        decreases n - i,
    {
        if lower(a.get_char(i)) != lower(b.get_char(i)) {
            assert(ascii_lower(a@[i as int]) != ascii_lower(b@[i as int]));
            return false;
        }
        i += 1;
    }
    true
}

/// The legacy `AOE_MOUSE_CAPTURE` opt-out: `0`/`false` disables capture, any
/// other value (or an unset var) leaves it enabled. Kept as a backstop to
/// the Settings toggle.
fn env_mouse_capture_allows(value: Option<&str>) -> (r: bool)
    ensures
        r == env_allows(text::optional_str(value)),
{
    match value {
        Some(v) => !(same_text(v, "0") || equals_ignoring_case(v, "false")),
        None => true,
    }
}

/// Whether the TUI should request mouse capture from the terminal. The
/// Settings entry is the primary control; the `AOE_MOUSE_CAPTURE` environment
/// variable, whose value `env` holds, stays as an opt-out backstop. Capture
/// is requested only when the config allows it AND the variable hasn't
/// disabled it, so a `false` from either source wins.
pub fn mouse_capture_requested(session: &SessionConfig, env: Option<&str>) -> (r: bool)
    ensures
        r == (session.mouse_capture && env_allows(text::optional_str(env))),
{
    session.mouse_capture && env_mouse_capture_allows(env)
}

/// Whether the terminal setup switches mouse capture on. Mosh mangles mouse
/// escapes, so under it capture stays off even when requested.
pub fn enables_mouse(session: &SessionConfig, env: Option<&str>, mosh_active: bool) -> (r: bool)
    ensures
        r == (session.mouse_capture && env_allows(text::optional_str(env)) && !mosh_active),
{
    mouse_capture_requested(session, env) && !mosh_active
}

/// Whether the teardown switches mouse capture off: always but under Mosh,
/// where it was never on. A mid-session Settings toggle can turn capture on
/// after startup, so the startup decision does not count here.
pub fn disables_mouse_on_exit(mosh_active: bool) -> (r: bool)
    ensures
        r == !mosh_active,
{
    !mosh_active
}

/// Two optional warnings as one, a blank line between them.
pub open spec fn combined_warning(a: Option<Seq<char>>, b: Option<Seq<char>>) -> Option<Seq<char>> {
    match (a, b) {
        (Some(a), Some(b)) => Some(a + "\n\n"@ + b),
        (Some(a), None) => Some(a),
        (None, b) => b,
    }
}

/// Combine the caller-supplied startup warning with any config-parse failures
/// detected at startup.
pub fn combine_warnings(a: Option<String>, b: Option<String>) -> (r: Option<String>)
    ensures
        text::optional_text(r) == combined_warning(text::optional_text(a), text::optional_text(b)),
{
    match (a, b) {
        (Some(a), Some(b)) => Some(concat3(a.as_str(), "\n\n", b.as_str())),
        (Some(a), None) => Some(a),
        (None, b) => b,
    }
}

/// What the startup learned.
#[derive(Debug)]
pub enum StartupEvent {
    /// Whether a remote daemon is configured.
    RemoteConfigured(bool),
    /// Whether data migrations are pending.
    MigrationsPending(bool),
    /// The migrations are still running.
    SpinnerTick,
    /// The migrations ended.
    MigrationsDone(Result<(), String>),
    /// Whether tmux is installed.
    TmuxAvailable(bool),
    /// Whether the version changed since the last run.
    VersionChanged(Result<bool, String>),
    /// Whether update checks are enabled.
    UpdateChecksEnabled(bool),
    /// The update cache was refreshed, or that failed or took too long.
    UpdateChecked,
    /// Whether standard input is a terminal.
    StdinIsTerminal(bool),
}

/// What the startup does next.
#[derive(Debug)]
pub enum StartupStep {
    /// Show the remote view and nothing else. The remote machine owns tmux
    /// and migrations, this side is a pure client.
    RunRemote,
    /// Look for pending migrations.
    CheckMigrations,
    /// Run the migrations.
    RunMigrations,
    /// Show this and wait on.
    ShowSpinner(String),
    /// Look for tmux.
    CheckTmux,
    /// Print these lines to standard error and exit with status 1.
    Exit(Vec<String>),
    /// Detect the coding tools and compare versions.
    CheckVersion,
    /// Look whether update checks are enabled.
    CheckUpdateSettings,
    /// Refresh the update cache, for [`UPDATE_TIMEOUT_SECS`] at most, and
    /// never mind a failure.
    RefreshUpdates,
    /// Look at standard input.
    CheckStdin,
    /// Set up the terminal and run the app.
    EnterTerminal,
    /// End with this error.
    Fail(String),
}

/// How long a refresh of the update cache may take.
pub const UPDATE_TIMEOUT_SECS: u64 = 5;

/// Milliseconds between two frames of the spinner.
pub const SPINNER_INTERVAL_MS: u64 = 120;

/// What clears the spinner's line.
pub const CLEAR_LINE: &'static str = "\r\x1b[2K";

/// What contracts say of a step.
pub enum StepModel {
    RunRemote,
    CheckMigrations,
    RunMigrations,
    ShowSpinner(Seq<char>),
    CheckTmux,
    Exit(Seq<Seq<char>>),
    CheckVersion,
    CheckUpdateSettings,
    RefreshUpdates,
    CheckStdin,
    EnterTerminal,
    Fail(Seq<char>),
}

impl View for StartupStep {
    type V = StepModel;

    open spec fn view(&self) -> StepModel {
        match *self {
            StartupStep::RunRemote => StepModel::RunRemote,
            StartupStep::CheckMigrations => StepModel::CheckMigrations,
            StartupStep::RunMigrations => StepModel::RunMigrations,
            StartupStep::ShowSpinner(shown) => StepModel::ShowSpinner(shown@),
            StartupStep::CheckTmux => StepModel::CheckTmux,
            StartupStep::Exit(lines) => StepModel::Exit(text::texts(lines@)),
            StartupStep::CheckVersion => StepModel::CheckVersion,
            StartupStep::CheckUpdateSettings => StepModel::CheckUpdateSettings,
            StartupStep::RefreshUpdates => StepModel::RefreshUpdates,
            StartupStep::CheckStdin => StepModel::CheckStdin,
            StartupStep::EnterTerminal => StepModel::EnterTerminal,
            StartupStep::Fail(message) => StepModel::Fail(message@),
        }
    }
}

/// The frames of the spinner.
pub open spec fn spinner_frame(i: nat) -> Seq<char> {
    if i % 4 == 0 {
        "◐"@
    } else if i % 4 == 1 {
        "◓"@
    } else if i % 4 == 2 {
        "◑"@
    } else {
        "◒"@
    }
}

/// What is printed where tmux is missing.
pub open spec fn tmux_help() -> Seq<Seq<char>> {
    seq![
        "Error: tmux not found in PATH"@,
        ""@,
        "Agent of Empires requires tmux. Install with:"@,
        "  brew install tmux     # macOS"@,
        "  apt install tmux      # Debian/Ubuntu"@,
        "  pacman -S tmux        # Arch"@,
    ]
}

/// What the startup does on an event; `frame` is the number of the next frame
/// of the spinner.
pub open spec fn startup_step(frame: nat, event: StartupEvent) -> StepModel {
    match event {
        StartupEvent::RemoteConfigured(remote) => if remote {
            StepModel::RunRemote
        } else {
            StepModel::CheckMigrations
        },
        StartupEvent::MigrationsPending(pending) => if pending {
            StepModel::RunMigrations
        } else {
            StepModel::CheckTmux
        },
        StartupEvent::SpinnerTick => StepModel::ShowSpinner(
            "\r  "@ + spinner_frame(frame) + " Running data migrations..."@,
        ),
        StartupEvent::MigrationsDone(Ok(_)) => StepModel::CheckTmux,
        StartupEvent::MigrationsDone(Err(message)) => StepModel::Fail(message@),
        StartupEvent::TmuxAvailable(available) => if available {
            StepModel::CheckVersion
        } else {
            StepModel::Exit(tmux_help())
        },
        StartupEvent::VersionChanged(Ok(changed)) => if changed {
            StepModel::CheckUpdateSettings
        } else {
            StepModel::CheckStdin
        },
        StartupEvent::VersionChanged(Err(message)) => StepModel::Fail(message@),
        StartupEvent::UpdateChecksEnabled(enabled) => if enabled {
            StepModel::RefreshUpdates
        } else {
            StepModel::CheckStdin
        },
        StartupEvent::UpdateChecked => StepModel::CheckStdin,
        StartupEvent::StdinIsTerminal(terminal) => if terminal {
            StepModel::EnterTerminal
        } else {
            StepModel::Fail("stdin is not a terminal; aoe requires an interactive TTY"@)
        },
    }
}

/// The startup of the TUI, up to the terminal setup. It begins with the
/// question whether a remote daemon is configured.
#[derive(Debug)]
pub struct Startup {
    frame: u8,
}

impl View for Startup {
    type V = nat;

    /// The number of the next frame of the spinner, counted round.
    closed spec fn view(&self) -> nat {
        self.frame as nat
    }
}

impl Startup {
    #[verifier::type_invariant]
    spec fn well_formed(self) -> bool {
        self.frame < 4
    }

    pub fn new() -> (r: Self)
        ensures
            r@ == 0,
    {
        Startup { frame: 0 }
    }

    /// Take in what the startup learned.
    pub fn step(&mut self, event: StartupEvent) -> (r: StartupStep)
        ensures
            r@ == startup_step(old(self)@, event),
            final(self)@ == (if event is SpinnerTick {
                (old(self)@ + 1) % 4
            } else {
                old(self)@
            }),
    {
        proof {
            use_type_invariant(&*self);
        }
        match event {
            StartupEvent::RemoteConfigured(remote) => if remote {
                StartupStep::RunRemote
            } else {
                StartupStep::CheckMigrations
            },
            StartupEvent::MigrationsPending(pending) => if pending {
                StartupStep::RunMigrations
            } else {
                StartupStep::CheckTmux
            },
            StartupEvent::SpinnerTick => {
                let shown = match self.frame {
                    0 => "◐",
                    1 => "◓",
                    2 => "◑",
                    _ => "◒",
                };
                self.frame = (self.frame + 1) % 4;
                StartupStep::ShowSpinner(concat3("\r  ", shown, " Running data migrations..."))
            },
            StartupEvent::MigrationsDone(Ok(_)) => StartupStep::CheckTmux,
            StartupEvent::MigrationsDone(Err(message)) => StartupStep::Fail(message),
            StartupEvent::TmuxAvailable(available) => if available {
                StartupStep::CheckVersion
            } else {
                let lines = vec![
                    "Error: tmux not found in PATH".to_owned(),
                    "".to_owned(),
                    "Agent of Empires requires tmux. Install with:".to_owned(),
                    "  brew install tmux     # macOS".to_owned(),
                    "  apt install tmux      # Debian/Ubuntu".to_owned(),
                    "  pacman -S tmux        # Arch".to_owned(),
                ];
                assert(text::texts(lines@) =~= tmux_help());
                StartupStep::Exit(lines)
            },
            StartupEvent::VersionChanged(Ok(changed)) => if changed {
                StartupStep::CheckUpdateSettings
            } else {
                StartupStep::CheckStdin
            },
            StartupEvent::VersionChanged(Err(message)) => StartupStep::Fail(message),
            StartupEvent::UpdateChecksEnabled(enabled) => if enabled {
                StartupStep::RefreshUpdates
            } else {
                StartupStep::CheckStdin
            },
            StartupEvent::UpdateChecked => StartupStep::CheckStdin,
            StartupEvent::StdinIsTerminal(terminal) => if terminal {
                StartupStep::EnterTerminal
            } else {
                StartupStep::Fail(
                    "stdin is not a terminal; aoe requires an interactive TTY".to_owned(),
                )
            },
        }
    }
}

/// Either side alone switches mouse capture off.
pub proof fn either_side_disables_capture(session: SessionConfig, env: Option<Seq<char>>)
    ensures
        !session.mouse_capture ==> !(session.mouse_capture && env_allows(env)),
        !env_allows(env) ==> !(session.mouse_capture && env_allows(env)),
        !env_allows(Some("0"@)),
        env_allows(None),
{
}

/// The terminal is only entered where standard input is one.
pub proof fn terminal_needs_a_tty(frame: nat, event: StartupEvent)
    ensures
        startup_step(frame, event) is EnterTerminal <==> event == StartupEvent::StdinIsTerminal(
            true,
        ),
{
}

/// The environment switches mouse capture off by `0` and by `false` in any
/// case, and by nothing else.
pub proof fn only_zero_and_false_switch_off(v: Seq<char>)
    ensures
        env_allows(Some(v)) <==> !(v == "0"@ || (v.len() == 5 && (v[0] == 'f' || v[0] == 'F') && (v[1]
            == 'a' || v[1] == 'A') && (v[2] == 'l' || v[2] == 'L') && (v[3] == 's' || v[3] == 'S')
            && (v[4] == 'e' || v[4] == 'E'))),
        env_allows(None),
{
    reveal_strlit("false");
    let w = "false"@;
    assert(w.len() == 5 && w[0] == 'f' && w[1] == 'a' && w[2] == 'l' && w[3] == 's' && w[4] == 'e');
    if same_ignoring_case(v, w) {
        assert(ascii_lower(v[0]) == ascii_lower(w[0]));
        assert(ascii_lower(v[1]) == ascii_lower(w[1]));
        assert(ascii_lower(v[2]) == ascii_lower(w[2]));
        assert(ascii_lower(v[3]) == ascii_lower(w[3]));
        assert(ascii_lower(v[4]) == ascii_lower(w[4]));
    }
    if v.len() == 5 && (v[0] == 'f' || v[0] == 'F') && (v[1] == 'a' || v[1] == 'A') && (v[2] == 'l'
        || v[2] == 'L') && (v[3] == 's' || v[3] == 'S') && (v[4] == 'e' || v[4] == 'E') {
        assert forall|i: int| 0 <= i < v.len() implies ascii_lower(#[trigger] v[i]) == ascii_lower(
            w[i],
        ) by {
            assert(i == 0 || i == 1 || i == 2 || i == 3 || i == 4);
        }
    }
}

/// No warning is lost: of two both are shown, the caller's first and a blank
/// line between them, one alone is shown as it is, and none as none.
pub proof fn warnings_are_kept(a: Seq<char>, b: Seq<char>)
    ensures
        combined_warning(Some(a), Some(b)) == Some(a + "\n\n"@ + b),
        combined_warning(Some(a), None) == Some(a),
        combined_warning(None, Some(b)) == Some(b),
        combined_warning(None, None) is None,
{
}

/// The startup goes on from what it learned: a remote daemon is shown at once,
/// pending migrations run before tmux is looked for, a missing tmux ends it
/// with help, a new version leads to the update settings, updates are refreshed
/// only where they are enabled, and every failure ends it with its message.
pub proof fn startup_goes_step_by_step(frame: nat, message: String)
    ensures
        startup_step(frame, StartupEvent::RemoteConfigured(true)) is RunRemote,
        startup_step(frame, StartupEvent::RemoteConfigured(false)) is CheckMigrations,
        startup_step(frame, StartupEvent::MigrationsPending(true)) is RunMigrations,
        startup_step(frame, StartupEvent::MigrationsPending(false)) is CheckTmux,
        startup_step(frame, StartupEvent::MigrationsDone(Ok(()))) is CheckTmux,
        startup_step(frame, StartupEvent::MigrationsDone(Err(message))) == StepModel::Fail(
            message@,
        ),
        startup_step(frame, StartupEvent::TmuxAvailable(true)) is CheckVersion,
        startup_step(frame, StartupEvent::TmuxAvailable(false)) matches StepModel::Exit(lines)
            && lines.len() == 6 && lines[0] == "Error: tmux not found in PATH"@,
        startup_step(frame, StartupEvent::VersionChanged(Ok(true))) is CheckUpdateSettings,
        startup_step(frame, StartupEvent::VersionChanged(Ok(false))) is CheckStdin,
        startup_step(frame, StartupEvent::VersionChanged(Err(message))) == StepModel::Fail(
            message@,
        ),
        startup_step(frame, StartupEvent::UpdateChecksEnabled(true)) is RefreshUpdates,
        startup_step(frame, StartupEvent::UpdateChecksEnabled(false)) is CheckStdin,
        startup_step(frame, StartupEvent::UpdateChecked) is CheckStdin,
        startup_step(frame, StartupEvent::StdinIsTerminal(true)) is EnterTerminal,
        startup_step(frame, StartupEvent::StdinIsTerminal(false)) is Fail,
        startup_step(frame, StartupEvent::SpinnerTick) is ShowSpinner,
{
}

/// The spinner turns: each frame differs from the one before, and the fourth
/// after it is the same again.
pub proof fn the_spinner_turns(frame: nat)
    ensures
        startup_step(frame, StartupEvent::SpinnerTick) == StepModel::ShowSpinner(
            "\r  "@ + spinner_frame(frame) + " Running data migrations..."@,
        ),
        spinner_frame(frame) != spinner_frame(frame + 1),
        spinner_frame(frame) != spinner_frame(frame + 2),
        spinner_frame(frame) == spinner_frame(frame + 4),
{
    reveal_strlit("◐");
    reveal_strlit("◓");
    reveal_strlit("◑");
    reveal_strlit("◒");
    assert("◐"@[0] == '◐' && "◓"@[0] == '◓' && "◑"@[0] == '◑' && "◒"@[0] == '◒');
}

/// A missing tmux is told with how to install it.
pub proof fn missing_tmux_is_explained(frame: nat)
    ensures
        startup_step(frame, StartupEvent::TmuxAvailable(false)) == StepModel::Exit(
            seq![
                "Error: tmux not found in PATH"@,
                ""@,
                "Agent of Empires requires tmux. Install with:"@,
                "  brew install tmux     # macOS"@,
                "  apt install tmux      # Debian/Ubuntu"@,
                "  pacman -S tmux        # Arch"@,
            ],
        ),
{
}

/// What contracts say of a step is the step and the text that it shows.
pub proof fn step_models_are_faithful(shown: String, lines: Vec<String>)
    ensures
        StartupStep::RunRemote@ is RunRemote,
        StartupStep::CheckMigrations@ is CheckMigrations,
        StartupStep::RunMigrations@ is RunMigrations,
        StartupStep::ShowSpinner(shown)@ == StepModel::ShowSpinner(shown@),
        StartupStep::CheckTmux@ is CheckTmux,
        StartupStep::Exit(lines)@ == StepModel::Exit(text::texts(lines@)),
        StartupStep::CheckVersion@ is CheckVersion,
        StartupStep::CheckUpdateSettings@ is CheckUpdateSettings,
        StartupStep::RefreshUpdates@ is RefreshUpdates,
        StartupStep::CheckStdin@ is CheckStdin,
        StartupStep::EnterTerminal@ is EnterTerminal,
        StartupStep::Fail(shown)@ == StepModel::Fail(shown@),
{
}

/// The spinner shows a half-filled circle, its filled half going round; without
/// a terminal the startup says that it needs one.
pub proof fn startup_texts_are_shown(frame: nat)
    ensures
        frame % 4 == 0 ==> spinner_frame(frame) == "◐"@,
        frame % 4 == 1 ==> spinner_frame(frame) == "◓"@,
        frame % 4 == 2 ==> spinner_frame(frame) == "◑"@,
        frame % 4 == 3 ==> spinner_frame(frame) == "◒"@,
        startup_step(frame, StartupEvent::StdinIsTerminal(false)) == StepModel::Fail(
            "stdin is not a terminal; aoe requires an interactive TTY"@,
        ),
{
}

} // verus!
