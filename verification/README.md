# aoe

The core of the plugin host of Agent of Empires, verified with Verus: what
plugins may ask for, what they may show, which settings win, which commands
they add, and how their workers are called, fed and given up on.

- `src/` is the library. Every function states what it returns or changes, and
  Verus proves it; the laws that relate several functions are the public proof
  functions. Calls into other crates (`serde_json`, `clap`, `chrono`,
  `ratatui`, `toml`) stand behind small trusted functions whose doc comments
  say what is taken for granted.
- `tests/` runs the library with those crates linked.
- `app/` is the ordinary Rust around it: processes, pipes, terminals and wire
  formats.

| Module | What it decides |
| --- | --- |
| `plugin_api` | plugin ids, capabilities, what a manifest declares |
| `plugin::host` | worker calls, capability gating, UI pushes, session metadata, event forwarding, respawn budget |
| `plugin::payload` | the JSON form of UI payloads |
| `plugin::ui` | payload caps, the cache of plugin UI state, notifications |
| `plugin::settings` | virtual sections, the runtime schema, resolution of defaults |
| `plugin::cli_graft` | which commands are grafted and how a command line is dispatched |
| `plugin::discover` | order and marks of discovered repositories |
| `plugin::sandbox` | how a worker process is started |
| `cli` | the builtin worker, `settings explain`, `stop-all` |
| `acp::session_tee` | which log line goes to which session's file |
| `telemetry::plugins` | what the usage snapshot may say of plugins |
| `tui` | startup, mouse capture, the prompt queue, dialogs |
| `json`, `text`, `name_map`, `sorting`, `lists` | the plain data underneath |
