use aoe::json::parse_json;
use aoe::json::render_json;
use aoe::json::same_json;
use aoe::json::Json;
use aoe::name_map::NameMap;
use aoe::plugin::host::authorize;
use aoe::plugin::host::check_entrypoint;
use aoe::plugin::host::handle_host_call;
use aoe::plugin::host::meta_changed;
use aoe::plugin::host::meta_get;
use aoe::plugin::host::notify_event;
use aoe::plugin::host::published;
use aoe::plugin::host::reply_line;
use aoe::plugin::host::request_line;
use aoe::plugin::host::set_meta;
use aoe::plugin::host::subscribed;
use aoe::plugin::host::worker_command;
use aoe::plugin::host::BusEvent;
use aoe::plugin::host::BusSignal;
use aoe::plugin::host::CallEnd;
use aoe::plugin::host::CallError;
use aoe::plugin::host::Delivery;
use aoe::plugin::host::EventForwarder;
use aoe::plugin::host::ForwardStep;
use aoe::plugin::host::HostRequest;
use aoe::plugin::host::PluginHost;
use aoe::plugin::host::SessionRecord;
use aoe::plugin::host::Worker;
use aoe::plugin::host::WorkerChoice;
use aoe::plugin::host::WorkerLife;
use aoe::plugin::host::WorkerLoss;
use aoe::plugin::host::WorkerPlan;
use aoe::plugin::registry::LoadedPlugin;
use aoe::plugin::registry::PluginRegistry;
use aoe::plugin::registry::PluginSource;
use aoe::plugin::sandbox::backend;
use aoe::plugin::sandbox::SandboxBackend;
use aoe::plugin_api::capability::Capability;
use aoe::plugin_api::id::PluginId;
use aoe::plugin_api::manifest::PluginManifest;
use aoe::plugin_api::manifest::RuntimeSpec;

fn json(text: &str) -> Json {
    parse_json(text).unwrap()
}

fn plugin(id: &str, capabilities: Vec<Capability>, root: Option<&str>) -> LoadedPlugin {
    LoadedPlugin {
        manifest: PluginManifest {
            id: PluginId::new(id).unwrap(),
            capabilities,
            settings: vec![],
            setting_defaults: vec![],
            commands: vec![],
            ui: vec![],
            runtime: Some(RuntimeSpec {
                entrypoint: "worker.sh".into(),
                args: vec!["--fast".into()],
            }),
        },
        root: root.map(str::to_string),
        source: PluginSource::Builtin,
        enabled: true,
        granted: true,
        settings: NameMap::new(),
    }
}

fn worker() -> Worker {
    Worker::new(&plugin(
        "test.worker",
        vec![Capability::SessionsRead, Capability::EventsPublish],
        None,
    ))
}

#[test]
fn authorize_refuses_undeclared_capabilities() {
    let granted = vec![Capability::SessionsRead];
    assert!(authorize("p", &granted, "sessions.list").is_ok());
    assert!(authorize("p", &granted, "events.publish").is_err());
    assert!(authorize("p", &granted, "session.meta.set").is_err());
    assert!(authorize("p", &granted, "made.up.method").is_err());
}

#[test]
fn refused_calls_name_the_missing_capability() {
    assert_eq!(
        authorize("p", &vec![], "session.meta.cas").unwrap_err(),
        "plugin p called session.meta.cas without the sessions-meta-write capability"
    );
    assert_eq!(
        authorize("p", &vec![], "made.up").unwrap_err(),
        "unknown host method \"made.up\""
    );
}

#[test]
fn call_round_trips_against_a_script_worker() {
    let mut worker = worker();
    let (id, line) = worker.begin_call("test.run", json("{}"));
    assert_eq!(id, 1);
    assert!(!line.contains('\n'));
    assert!(same_json(
        &json(&line),
        &json("{\"jsonrpc\":\"2.0\",\"id\":1,\"method\":\"test.run\",\"params\":{}}")
    ));
    let answer = worker.read_line("{\"jsonrpc\":\"2.0\",\"id\":1,\"result\":{\"ok\":true}}");
    let Delivery::Settle { id, outcome } = answer else {
        panic!("the answer must settle the call");
    };
    assert_eq!(id, 1);
    let result = worker.end_call(id, CallEnd::Answered(outcome)).unwrap();
    assert!(same_json(&result, &json("{\"ok\":true}")));
    // A second answer under the same number finds nobody waiting.
    assert!(matches!(
        worker.read_line("{\"jsonrpc\":\"2.0\",\"id\":1,\"result\":1}"),
        Delivery::Ignored
    ));
}

#[test]
fn rpc_error_and_timeout_are_distinguished() {
    let mut worker = worker();
    // First call: a clean RPC refusal.
    let (first, _) = worker.begin_call("test.run", json("{}"));
    let Delivery::Settle { outcome, .. } =
        worker.read_line("{\"jsonrpc\":\"2.0\",\"id\":1,\"error\":{\"code\":1,\"message\":\"nope\"}}")
    else {
        panic!("the refusal must settle the call");
    };
    let err = worker.end_call(first, CallEnd::Answered(outcome)).unwrap_err();
    assert!(
        matches!(err, CallError::Rpc(ref m) if m == "nope"),
        "{err:?}"
    );
    // Second call: the worker never answers again; wire timeout.
    let (second, _) = worker.begin_call("test.run", json("{}"));
    let err = worker.end_call(second, CallEnd::TimedOut { secs: 0, nanos: 200_000_000 }).unwrap_err();
    assert!(matches!(err, CallError::Wire(ref m) if m == "timed out after 200ms; worker killed"), "{err:?}");
    assert!(matches!(
        worker.read_line("{\"jsonrpc\":\"2.0\",\"id\":2,\"result\":1}"),
        Delivery::Ignored
    ));
}

#[test]
fn a_lost_worker_ends_its_calls_on_the_wire() {
    for (loss, words) in [
        (WorkerLoss::ClosedOutput, "worker closed stdout"),
        (WorkerLoss::Died, "worker died"),
    ] {
        let mut worker = worker();
        worker.begin_call("m", Json::Null);
        worker.begin_call("m", Json::Null);
        let mut numbers = Vec::new();
        for (id, end) in worker.close(loss) {
            numbers.push(id);
            let err = worker.end_call(id, end).unwrap_err();
            assert!(matches!(err, CallError::Wire(ref m) if m == words), "{err:?}");
        }
        assert_eq!(numbers, [1, 2]);
    }
}

#[test]
fn wire_failures_have_their_own_words() {
    let mut worker = worker();
    let (id, _) = worker.begin_call("m", Json::Null);
    let err = worker.end_call(id, CallEnd::WriteFailed("broken pipe".into())).unwrap_err();
    assert!(matches!(err, CallError::Wire(ref m) if m == "worker write failed: broken pipe"));
    let (id, _) = worker.begin_call("m", Json::Null);
    let err = worker.end_call(id, CallEnd::Disconnected).unwrap_err();
    assert!(matches!(err, CallError::Wire(ref m) if m == "worker exited mid-call"));
    // The call that was cut off still waits until the worker is closed.
    let ended = worker.close(WorkerLoss::ClosedOutput);
    assert_eq!(ended.len(), 1);
    assert_eq!(ended[0].0, 2);
    assert!(!worker.alive());
    assert!(worker.close(WorkerLoss::Died).is_empty());
}

#[test]
fn messages_are_routed_by_shape() {
    let mut worker = worker();
    assert!(matches!(worker.read_line("not json"), Delivery::Ignored));
    assert!(matches!(worker.read_line("{\"method\":\"note\"}"), Delivery::Ignored));
    assert!(matches!(worker.read_line("{\"id\":9,\"result\":1}"), Delivery::Ignored));
    let Delivery::Reply(line) = worker.read_line("{\"id\":4,\"method\":\"session.meta.set\"}") else {
        panic!("an ungranted call must be refused");
    };
    assert!(same_json(
        &json(&line),
        &json("{\"jsonrpc\":\"2.0\",\"id\":4,\"error\":{\"code\":-32000,\"message\":\"plugin test.worker called session.meta.set without the sessions-meta-write capability\"}}")
    ));
    let Delivery::Perform { id, request } = worker.read_line("{\"id\":5,\"method\":\"sessions.list\"}") else {
        panic!("a granted call must be performed");
    };
    assert_eq!(id, 5);
    assert!(matches!(request, HostRequest::ListSessions));
}

#[test]
fn an_error_without_a_message_is_unknown() {
    let mut worker = worker();
    worker.begin_call("m", Json::Null);
    let Delivery::Settle { outcome, .. } = worker.read_line("{\"id\":1,\"error\":{}}") else {
        panic!("the refusal must settle the call");
    };
    assert_eq!(outcome.unwrap_err(), "unknown error");
}

#[test]
fn host_calls_are_checked_parameter_by_parameter() {
    let all = vec![
        Capability::EventsPublish,
        Capability::EventsSubscribe,
        Capability::SessionsRead,
        Capability::SessionsMetaWrite,
    ];
    let refuse = |method: &str, params: &str| handle_host_call("p.q", &all, method, &json(params)).unwrap_err();
    assert_eq!(refuse("events.publish", "{}"), "events.publish needs a topic");
    assert_eq!(
        refuse("events.publish", "{\"topic\":\"core.x\"}"),
        "plugin p.q may only publish under plugin.p.q.*"
    );
    assert_eq!(
        refuse("events.subscribe", "{\"topics\":[\"a\",1]}"),
        "events.subscribe needs topics: [string]"
    );
    assert_eq!(refuse("session.meta.get", "{}"), "missing string param \"session_id\"");
    assert_eq!(
        refuse("session.meta.set", "{\"session_id\":\"s\"}"),
        "session.meta.set needs a value"
    );
    assert_eq!(
        refuse("session.meta.cas", "{\"session_id\":\"s\"}"),
        "session.meta.cas needs a value"
    );
    let accept = |method: &str, params: &str| handle_host_call("p.q", &all, method, &json(params)).unwrap();
    match accept("events.publish", "{\"topic\":\"plugin.p.q.done\",\"payload\":[1]}") {
        HostRequest::Publish { topic, payload } => {
            assert_eq!(topic, "plugin.p.q.done");
            assert!(same_json(&payload, &json("[1]")));
        }
        other => panic!("{other:?}"),
    }
    match accept("events.subscribe", "{\"topics\":[\"a\",\"b\"],\"after_seq\":7}") {
        HostRequest::Subscribe { topics, after_seq } => {
            assert_eq!(topics, ["a", "b"]);
            assert_eq!(after_seq, Some(7));
        }
        other => panic!("{other:?}"),
    }
    match accept("session.meta.cas", "{\"session_id\":\"s\",\"value\":2}") {
        HostRequest::SetMeta { session_id, expected, value } => {
            assert_eq!(session_id, "s");
            assert!(expected.unwrap().is_null());
            assert_eq!(value.as_u64(), Some(2));
        }
        other => panic!("{other:?}"),
    }
    match accept("session.meta.set", "{\"session_id\":\"s\",\"value\":null,\"expected\":1}") {
        HostRequest::SetMeta { expected, value, .. } => {
            assert!(expected.is_none());
            assert!(value.is_null());
        }
        other => panic!("{other:?}"),
    }
}

fn sessions() -> Vec<SessionRecord> {
    let mut meta = NameMap::new();
    meta.insert("p", json("{\"n\":1}"));
    meta.insert("other", json("2"));
    vec![
        SessionRecord { id: "s1".into(), plugin_meta: meta },
        SessionRecord { id: "s2".into(), plugin_meta: NameMap::new() },
    ]
}

#[test]
fn meta_reads_back_what_was_written() {
    let mut sessions = sessions();
    let outcome = set_meta(&mut sessions, "p", "s2", None, json("[1,2]")).unwrap();
    assert!(outcome.swapped);
    assert!(same_json(&meta_get(&sessions, "p", "s2").unwrap(), &json("[1,2]")));
    assert!(same_json(&meta_get(&sessions, "p", "s1").unwrap(), &json("{\"n\":1}")));
    assert!(same_json(&meta_get(&sessions, "other", "s1").unwrap(), &json("2")));
    assert!(meta_get(&sessions, "nobody", "s1").unwrap().is_null());
    assert_eq!(meta_get(&sessions, "p", "gone").unwrap_err(), "unknown session gone");
    assert_eq!(
        set_meta(&mut sessions, "p", "gone", None, Json::Null).unwrap_err(),
        "unknown session gone"
    );
}

#[test]
fn compare_and_swap_writes_only_what_was_expected() {
    let mut sessions = sessions();
    let kept = set_meta(&mut sessions, "p", "s1", Some(json("{\"n\":2}")), json("3")).unwrap();
    assert!(!kept.swapped);
    assert!(same_json(&kept.current, &json("{\"n\":1}")));
    let swapped = set_meta(&mut sessions, "p", "s1", Some(json("{\"n\":1}")), Json::Null).unwrap();
    assert!(swapped.swapped);
    assert!(same_json(&swapped.to_json(), &json("{\"swapped\":true,\"current\":null}")));
    assert!(sessions[0].plugin_meta.get("p").is_none());
    let from_nothing = set_meta(&mut sessions, "p", "s1", Some(Json::Null), json("\"x\"")).unwrap();
    assert!(from_nothing.swapped);
    assert!(same_json(
        &meta_changed("s1", "p"),
        &json("{\"session_id\":\"s1\",\"plugin_id\":\"p\"}")
    ));
}

#[test]
fn answers_have_the_documented_shape() {
    assert_eq!(render_json(&published(12)), "{\"seq\":12}");
    assert_eq!(render_json(&subscribed()), "{\"subscribed\":true}");
    assert!(same_json(
        &json(&reply_line(3, -32601, Err("no".into()))),
        &json("{\"jsonrpc\":\"2.0\",\"id\":3,\"error\":{\"code\":-32601,\"message\":\"no\"}}")
    ));
    assert!(same_json(
        &json(&reply_line(3, -32601, Ok(json("[null]")))),
        &json("{\"jsonrpc\":\"2.0\",\"id\":3,\"result\":[null]}")
    ));
}

#[test]
fn request_lines_stay_on_one_line() {
    let line = request_line(1, "m", Json::text("a\nb\u{2028}\"c\""));
    assert!(!line.contains('\n'));
    let back = json(&line);
    assert_eq!(back.get("params").unwrap().as_str(), Some("a\nb\u{2028}\"c\""));
}

fn one_plugin_registry(enabled: bool) -> PluginRegistry {
    let mut p = plugin("p.q", vec![], None);
    p.enabled = enabled;
    PluginRegistry { plugins: vec![p] }
}

#[test]
fn the_respawn_budget_is_three() {
    let registry = one_plugin_registry(true);
    let mut host = PluginHost::new();
    for round in 1..=3 {
        assert_eq!(host.ensure_worker(&registry, "p.q", false), Ok(WorkerChoice::Spawn));
        let worker = host.add_worker("p.q");
        assert_eq!(worker, round);
        assert_eq!(host.ensure_worker(&registry, "p.q", true), Ok(WorkerChoice::Running(round)));
    }
    assert_eq!(
        host.ensure_worker(&registry, "p.q", false).unwrap_err(),
        "plugin p.q worker crashed 3 times; not respawning (disable and re-enable the plugin to reset)"
    );
    assert_eq!(host.last_worker(), 3);
}

#[test]
fn inactive_plugins_get_no_worker() {
    let registry = one_plugin_registry(false);
    let mut host = PluginHost::new();
    assert_eq!(
        host.ensure_worker(&registry, "p.q", false).unwrap_err(),
        "plugin p.q is not active"
    );
    assert_eq!(
        host.ensure_worker(&registry, "other", false).unwrap_err(),
        "plugin other is not active"
    );
}

#[test]
fn wire_failures_forget_the_worker_and_refusals_keep_it() {
    let mut host = PluginHost::new();
    let first = host.add_worker("p.q");
    let err = host
        .finish_call("p.q", first, "m", Err(CallError::Rpc("no".into())))
        .unwrap_err();
    assert_eq!(err, "plugin p.q m: no");
    assert_eq!(host.worker_of("p.q"), Some(first));
    let err = host
        .finish_call("p.q", first, "m", Err(CallError::Wire("gone".into())))
        .unwrap_err();
    assert_eq!(err, "plugin p.q m: gone");
    assert_eq!(host.worker_of("p.q"), None);
    // A late report on the old worker leaves its successor alone.
    let second = host.add_worker("p.q");
    host.mark_dead("p.q", first);
    assert_eq!(host.worker_of("p.q"), Some(second));
    assert_eq!(host.finish_call("p.q", second, "m", Ok(json("1"))).unwrap().as_u64(), Some(1));
}

#[test]
fn shutdown_hands_out_every_worker() {
    let mut host = PluginHost::new();
    host.add_worker("b");
    host.add_worker("a");
    assert_eq!(
        host.shutdown(),
        vec![("a".to_string(), 2), ("b".to_string(), 1)]
    );
    assert!(host.shutdown().is_empty());
}

#[test]
fn workers_start_from_the_manifest_or_this_binary() {
    match worker_command(&plugin("p.q", vec![], Some("/plugins/pq"))).unwrap() {
        WorkerPlan::Installed { root, entrypoint, args } => {
            assert_eq!(root, "/plugins/pq");
            assert_eq!(entrypoint, "worker.sh");
            assert_eq!(args, ["--fast"]);
        }
        other => panic!("{other:?}"),
    }
    match worker_command(&plugin("p.q", vec![], None)).unwrap() {
        WorkerPlan::Builtin { args } => {
            assert_eq!(args, ["__plugin-worker", "--id", "p.q", "--fast"])
        }
        other => panic!("{other:?}"),
    }
    let mut bare = plugin("p.q", vec![], None);
    bare.manifest.runtime = None;
    assert_eq!(
        worker_command(&bare).unwrap_err(),
        "plugin p.q declares no [runtime] section"
    );
    let p = plugin("p.q", vec![], Some("/r"));
    assert!(check_entrypoint(&p, "/r/worker.sh", true).is_ok());
    assert_eq!(
        check_entrypoint(&p, "/r/worker.sh", false).unwrap_err(),
        "plugin p.q entrypoint missing: /r/worker.sh"
    );
}

#[test]
fn the_backend_starts_workers_directly() {
    assert_eq!(backend().name(), "none");
    assert!(backend().isolation_summary().starts_with("runs as a regular process"));
    let plan = backend().command("/bin/w", &vec!["-x".to_string()], "/tmp");
    assert_eq!(plan.program, "/bin/w");
    assert_eq!(plan.args, ["-x"]);
    assert_eq!(plan.workdir, "/tmp");
}

fn event(seq: u64) -> BusEvent {
    BusEvent { seq, topic: "t".into(), payload: Json::unsigned(seq) }
}

#[test]
fn events_are_forwarded_once_and_in_order() {
    let (mut forwarder, first) = EventForwarder::start(Some(3), 100);
    assert!(matches!(first, ForwardStep::Replay { after_seq: 3 }));
    let sent = |step: ForwardStep| match step {
        ForwardStep::Send(line) => {
            json(&line).get("params").unwrap().u64_at("seq")
        }
        _ => None,
    };
    assert_eq!(sent(forwarder.step(BusSignal::Replayed(event(4)), WorkerLife::Alive)), Some(4));
    assert!(matches!(forwarder.step(BusSignal::ReplayEnded, WorkerLife::Alive), ForwardStep::Receive));
    let live = |forwarder: &mut EventForwarder, seq: u64, matches: bool| {
        forwarder.step(BusSignal::Live { event: event(seq), matches }, WorkerLife::Alive)
    };
    assert!(matches!(live(&mut forwarder, 4, true), ForwardStep::Receive));
    assert!(matches!(live(&mut forwarder, 5, false), ForwardStep::Receive));
    assert_eq!(sent(live(&mut forwarder, 6, true)), Some(6));
    assert!(matches!(
        forwarder.step(BusSignal::Lagged, WorkerLife::Alive),
        ForwardStep::Replay { after_seq: 6 }
    ));
    assert!(matches!(
        forwarder.step(BusSignal::Live { event: event(7), matches: true }, WorkerLife::Dead),
        ForwardStep::Stop
    ));
    assert!(matches!(forwarder.step(BusSignal::Closed, WorkerLife::Alive), ForwardStep::Stop));
}

#[test]
fn forwarding_without_a_start_begins_with_the_newest() {
    let (mut forwarder, first) = EventForwarder::start(None, 8);
    assert!(matches!(first, ForwardStep::Receive));
    assert!(matches!(
        forwarder.step(BusSignal::Live { event: event(8), matches: true }, WorkerLife::Alive),
        ForwardStep::Receive
    ));
    assert!(matches!(
        forwarder.step(BusSignal::Replayed(event(9)), WorkerLife::Gone),
        ForwardStep::Stop
    ));
    let line = notify_event(&event(1));
    assert!(same_json(
        &json(&line),
        &json("{\"jsonrpc\":\"2.0\",\"method\":\"events.event\",\"params\":{\"seq\":1,\"topic\":\"t\",\"payload\":1}}")
    ));
}

#[test]
fn a_broken_pipe_marks_the_worker() {
    let mut worker = worker();
    assert!(worker.alive());
    assert_eq!(worker.plugin_id(), "test.worker");
    worker.lose();
    assert!(!worker.alive());
    assert_eq!(worker.next_id(), 1);
}
