use aoe::json::parse_json;
use aoe::json::same_json;
use aoe::json::Json;
use aoe::name_map::NameMap;
use aoe::plugin::host::accepted;
use aoe::plugin::host::Delivery;
use aoe::plugin::host::HostRequest;
use aoe::plugin::host::Worker;
use aoe::plugin::payload::read_payload;
use aoe::plugin::registry::LoadedPlugin;
use aoe::plugin::registry::PluginRegistry;
use aoe::plugin::registry::PluginSource;
use aoe::plugin::ui::entries;
use aoe::plugin::ui::notifications;
use aoe::plugin::ui::notify;
use aoe::plugin::ui::remove_state;
use aoe::plugin::ui::set_state;
use aoe::plugin::ui::Block;
use aoe::plugin::ui::Severity;
use aoe::plugin::ui::UiPayload;
use aoe::plugin::ui::UiStore;
use aoe::plugin_api::id::PluginId;
use aoe::plugin_api::manifest::PluginManifest;
use aoe::plugin_api::manifest::UiContribution;
use aoe::plugin_api::manifest::UiSlot;

fn json(text: &str) -> Json {
    parse_json(text).unwrap()
}

fn read(text: &str) -> Option<UiPayload> {
    read_payload(&json(text))
}

#[test]
fn payload_json_shape_is_tagged_and_closed() {
    let payload: UiPayload =
        read("{\"kind\":\"badge\",\"text\":\"hi\",\"severity\":\"warning\"}").unwrap();
    assert!(matches!(payload, UiPayload::Badge { .. }));
    assert!(read("{\"kind\":\"badge\",\"text\":\"hi\",\"nope\":1}").is_none());
}

#[test]
fn every_kind_is_read() {
    match read("{\"kind\":\"badge\",\"text\":\"hi\",\"tooltip\":\"tip\"}").unwrap() {
        UiPayload::Badge { text, severity, tooltip } => {
            assert_eq!((text.as_str(), severity, tooltip.as_str()), ("hi", Severity::Info, "tip"));
        }
        other => panic!("{other:?}"),
    }
    match read("{\"kind\":\"cell\",\"text\":\"c\",\"severity\":\"success\",\"sort_key\":2}").unwrap() {
        UiPayload::Cell { text, severity, sort_key } => {
            assert_eq!((text.as_str(), severity), ("c", Severity::Success));
            assert_eq!(sort_key.unwrap().bits, 2.0f64.to_bits());
        }
        other => panic!("{other:?}"),
    }
    for text in ["{\"kind\":\"cell\",\"text\":\"c\"}", "{\"kind\":\"cell\",\"text\":\"c\",\"sort_key\":null}"] {
        assert!(matches!(read(text), Some(UiPayload::Cell { sort_key: None, .. })));
    }
    match read("{\"kind\":\"facets\",\"values\":[\"a\",\"b\"]}").unwrap() {
        UiPayload::Facets { values } => assert_eq!(values, ["a", "b"]),
        other => panic!("{other:?}"),
    }
    let card = "{\"kind\":\"blocks\",\"severity\":\"error\",\"blocks\":[\
        {\"type\":\"text\",\"text\":\"t\",\"severity\":\"warning\"},\
        {\"type\":\"kv\",\"items\":[[\"k\",\"v\"]]},\
        {\"type\":\"list\",\"items\":[\"one\"]},\
        {\"type\":\"metric\",\"label\":\"open\",\"value\":\"3\"}]}";
    match read(card).unwrap() {
        UiPayload::Blocks { severity, blocks } => {
            assert_eq!(severity, Severity::Error);
            assert_eq!(blocks.len(), 4);
            assert!(matches!(&blocks[0], Block::Text { text, severity: Severity::Warning } if text == "t"));
            assert!(matches!(&blocks[1], Block::Kv { items } if items[0] == ("k".into(), "v".into())));
            assert!(matches!(&blocks[2], Block::List { items } if items[0] == "one"));
            assert!(matches!(&blocks[3], Block::Metric { label, value } if label == "open" && value == "3"));
        }
        other => panic!("{other:?}"),
    }
}

#[test]
fn numbers_become_floats() {
    for (shown, float) in [("0", 0.0), ("-3", -3.0), ("1.5", 1.5), ("-0.0", -0.0), ("18446744073709551615", u64::MAX as f64)] {
        match read(&format!("{{\"kind\":\"sort_key\",\"key\":{shown},\"reason\":\"r\"}}")).unwrap() {
            UiPayload::SortKey { key, reason } => {
                assert_eq!(key.bits, f64::to_bits(float), "{shown}");
                assert_eq!(reason, "r");
            }
            other => panic!("{other:?}"),
        }
    }
}

#[test]
fn fields_may_be_given_by_place() {
    match read("[\"badge\",\"hi\"]").unwrap() {
        UiPayload::Badge { text, severity, tooltip } => {
            assert_eq!((text.as_str(), severity, tooltip.as_str()), ("hi", Severity::Info, ""));
        }
        other => panic!("{other:?}"),
    }
    match read("[\"badge\",\"hi\",\"error\",\"tip\"]").unwrap() {
        UiPayload::Badge { text, severity, tooltip } => {
            assert_eq!((text.as_str(), severity, tooltip.as_str()), ("hi", Severity::Error, "tip"));
        }
        other => panic!("{other:?}"),
    }
    match read("[\"cell\",\"c\",\"success\",2]").unwrap() {
        UiPayload::Cell { text, severity, sort_key } => {
            assert_eq!((text.as_str(), severity), ("c", Severity::Success));
            assert_eq!(sort_key.unwrap().bits, 2.0f64.to_bits());
        }
        other => panic!("{other:?}"),
    }
    for text in ["[\"cell\",\"c\"]", "[\"cell\",\"c\",\"info\",null]"] {
        assert!(matches!(read(text), Some(UiPayload::Cell { sort_key: None, .. })), "{text}");
    }
    assert!(matches!(read("[\"sort_key\",1.5,\"r\"]"), Some(UiPayload::SortKey { key, reason })
        if key.bits == 1.5f64.to_bits() && reason == "r"));
    assert!(matches!(read("[\"facets\",[\"a\"]]"), Some(UiPayload::Facets { values }) if values == ["a"]));
    let card = "[\"blocks\",\"warning\",[\
        [\"text\",\"t\"],[\"kv\",[[\"k\",\"v\"]]],[\"list\",[\"one\"]],[\"metric\",\"open\",\"3\"]]]";
    match read(card).unwrap() {
        UiPayload::Blocks { severity, blocks } => {
            assert_eq!(severity, Severity::Warning);
            assert_eq!(
                blocks,
                [
                    Block::Text { text: "t".into(), severity: Severity::Info },
                    Block::Kv { items: vec![("k".into(), "v".into())] },
                    Block::List { items: vec!["one".into()] },
                    Block::Metric { label: "open".into(), value: "3".into() },
                ]
            );
        }
        other => panic!("{other:?}"),
    }
}

#[test]
fn a_block_may_be_tagged_by_number() {
    let card = "{\"kind\":\"blocks\",\"blocks\":[\
        {\"type\":0,\"text\":\"t\"},[1,[]],{\"type\":2,\"items\":[]},[3,\"l\",\"v\"]]}";
    match read(card).unwrap() {
        UiPayload::Blocks { blocks, .. } => assert_eq!(
            blocks,
            [
                Block::Text { text: "t".into(), severity: Severity::Info },
                Block::Kv { items: vec![] },
                Block::List { items: vec![] },
                Block::Metric { label: "l".into(), value: "v".into() },
            ]
        ),
        other => panic!("{other:?}"),
    }
    for tag in ["4", "-1", "0.0", "\"0\"", "null"] {
        let text = format!("{{\"kind\":\"blocks\",\"blocks\":[{{\"type\":{tag},\"text\":\"t\"}}]}}");
        assert!(read(&text).is_none(), "{text}");
    }
}

#[test]
fn a_severity_may_be_an_object_that_names_it() {
    for (given, severity) in [
        ("{\"info\":null}", Some(Severity::Info)),
        ("{\"success\":{}}", Some(Severity::Success)),
        ("{\"warning\":null}", Some(Severity::Warning)),
        ("{\"error\":null}", Some(Severity::Error)),
        ("{\"loud\":null}", None),
        ("{\"warning\":1}", None),
        ("{\"warning\":{\"a\":null}}", None),
        ("{\"warning\":[]}", None),
        ("{\"warning\":null,\"error\":null}", None),
        ("{}", None),
        ("2", None),
        ("[\"warning\"]", None),
    ] {
        let text = format!("{{\"kind\":\"badge\",\"text\":\"t\",\"severity\":{given}}}");
        match read(&text) {
            Some(UiPayload::Badge { severity: got, .. }) => assert_eq!(Some(got), severity, "{text}"),
            other => assert!(other.is_none() && severity.is_none(), "{text}"),
        }
    }
}

#[test]
fn malformed_payloads_are_refused() {
    for text in [
        "null",
        "[]",
        "{}",
        "{\"kind\":\"other\"}",
        "{\"kind\":\"badge\"}",
        "{\"kind\":\"badge\",\"text\":1}",
        "{\"kind\":\"badge\",\"text\":\"t\",\"severity\":\"loud\"}",
        "{\"kind\":\"badge\",\"text\":\"t\",\"severity\":null}",
        "{\"kind\":\"badge\",\"text\":\"t\",\"tooltip\":null}",
        "{\"kind\":\"cell\",\"text\":\"t\",\"sort_key\":\"1\"}",
        "{\"kind\":\"sort_key\"}",
        "{\"kind\":\"sort_key\",\"key\":null}",
        "{\"kind\":\"facets\",\"values\":[1]}",
        "{\"kind\":\"facets\"}",
        "{\"kind\":\"blocks\"}",
        "{\"kind\":\"blocks\",\"blocks\":[{\"type\":\"text\"}]}",
        "{\"kind\":\"blocks\",\"blocks\":[{\"type\":\"kv\",\"items\":[[\"k\"]]}]}",
        "{\"kind\":\"blocks\",\"blocks\":[{\"type\":\"list\",\"items\":[],\"more\":1}]}",
        "{\"kind\":\"blocks\",\"blocks\":[{\"type\":\"graph\"}]}",
        "{\"kind\":0,\"text\":\"t\"}",
        "[\"badge\"]",
        "[0,\"t\"]",
        "[\"badge\",\"t\",null]",
        "[\"badge\",\"t\",\"info\",\"tip\",1]",
        "[\"facets\",[],1]",
        "[\"blocks\",[]]",
        "{\"kind\":\"blocks\",\"blocks\":[[\"list\"]]}",
        "{\"kind\":\"blocks\",\"blocks\":[[\"list\",[],1]]}",
    ] {
        assert!(read(text).is_none(), "{text}");
    }
}

fn card_plugin() -> LoadedPlugin {
    LoadedPlugin {
        manifest: PluginManifest {
            id: PluginId::new("p.q").unwrap(),
            capabilities: vec![],
            settings: vec![],
            setting_defaults: vec![],
            commands: vec![],
            ui: vec![UiContribution {
                id: "card".into(),
                slot: UiSlot::DashboardCard,
                title: "Card".into(),
                priority: 0,
            }],
            runtime: None,
        },
        root: None,
        source: PluginSource::Builtin,
        enabled: true,
        granted: true,
        settings: NameMap::new(),
    }
}

fn ask(worker: &mut Worker, method: &str, params: &str) -> HostRequest {
    let line = format!("{{\"jsonrpc\":\"2.0\",\"id\":4,\"method\":\"{method}\",\"params\":{params}}}");
    match worker.read_line(&line) {
        Delivery::Perform { id: 4, request } => request,
        other => panic!("{other:?}"),
    }
}

#[test]
fn a_worker_pushes_a_card_and_takes_it_back() {
    let registry = PluginRegistry { plugins: vec![card_plugin()] };
    let mut worker = Worker::new(&registry.plugins[0]);
    let mut store = UiStore::new();
    let params = "{\"contribution_id\":\"card\",\"ttl_ms\":50,\"payload\":{\"kind\":\"blocks\",\"blocks\":[{\"type\":\"list\",\"items\":[\"x\"]}]}}";
    let HostRequest::SetUiState { contribution_id, session_id, ttl_ms, payload } =
        ask(&mut worker, "ui.state.set", params)
    else {
        panic!("the push must be taken");
    };
    let id = worker.plugin_id().to_string();
    set_state(&mut store, &registry, &id, &contribution_id, session_id, ttl_ms, payload, 100).unwrap();
    let shown = entries(&store, &registry, UiSlot::DashboardCard, None, 149);
    assert_eq!(shown.len(), 1);
    assert_eq!(shown[0].plugin_id, "p.q");
    assert_eq!(shown[0].contribution_id, "card");
    assert!(matches!(&shown[0].payload, UiPayload::Blocks { blocks, .. }
        if matches!(&blocks[0], Block::List { items } if items[0] == "x")));
    assert!(entries(&store, &registry, UiSlot::DashboardCard, None, 150).is_empty());
    let HostRequest::RemoveUiState { contribution_id, session_id } =
        ask(&mut worker, "ui.state.remove", "{\"contribution_id\":\"card\"}")
    else {
        panic!("the removal must be taken");
    };
    remove_state(&mut store, &registry, &id, &contribution_id, session_id).unwrap();
    assert!(entries(&store, &registry, UiSlot::DashboardCard, None, 100).is_empty());
    assert!(same_json(&accepted(), &json("{\"accepted\":true}")));
}

#[test]
fn a_worker_notifies() {
    let registry = PluginRegistry { plugins: vec![card_plugin()] };
    let mut worker = Worker::new(&registry.plugins[0]);
    let mut store = UiStore::new();
    let HostRequest::Notify { title, body, severity, session_id } =
        ask(&mut worker, "ui.notify", "{\"title\":\"Done\",\"severity\":\"success\",\"session_id\":\"s1\"}")
    else {
        panic!("the notification must be taken");
    };
    notify(&mut store, &registry, "p.q", title, body, severity, session_id).unwrap();
    let listed = notifications(&store);
    assert_eq!(listed.len(), 1);
    assert_eq!((listed[0].title.as_str(), listed[0].body.as_str()), ("Done", ""));
    assert_eq!(listed[0].severity, Severity::Success);
    assert_eq!(listed[0].session_id.as_deref(), Some("s1"));
}

#[test]
fn malformed_pushes_are_answered_with_the_reason() {
    let mut worker = Worker::new(&card_plugin());
    let mut refused = |method: &str, params: &str| {
        let line = format!("{{\"id\":4,\"method\":\"{method}\",\"params\":{params}}}");
        match worker.read_line(&line) {
            Delivery::Reply(line) => json(&line).get("error").unwrap().text_at("message").unwrap(),
            other => panic!("{other:?}"),
        }
    };
    assert_eq!(refused("ui.state.set", "{}"), "missing string param \"contribution_id\"");
    assert_eq!(refused("ui.state.set", "{\"contribution_id\":\"card\"}"), "ui.state.set needs a valid payload");
    assert_eq!(refused("ui.state.remove", "{}"), "missing string param \"contribution_id\"");
    assert_eq!(refused("ui.notify", "{}"), "missing string param \"title\"");
    assert_eq!(refused("ui.notify", "{\"title\":\"t\",\"body\":1}"), "ui.notify body must be a string");
    assert_eq!(
        refused("ui.notify", "{\"title\":\"t\",\"severity\":\"loud\"}"),
        "ui.notify severity must be info, success, warning or error"
    );
    assert_eq!(refused("ui.other", "{}"), "unknown host method \"ui.other\"");
}
