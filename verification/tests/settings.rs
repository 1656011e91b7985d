use aoe::cli::settings_cmd::run;
use aoe::cli::settings_cmd::SettingsCommands;
use aoe::json::parse_json;
use aoe::json::same_json;
use aoe::json::Json;
use aoe::name_map::NameMap;
use aoe::plugin::registry::LoadedPlugin;
use aoe::plugin::registry::PluginRegistry;
use aoe::plugin::registry::PluginSource;
use aoe::plugin::settings::expand_virtual_sections;
use aoe::plugin::settings::json_at_descriptor;
use aoe::plugin::settings::nested_leaf;
use aoe::plugin::settings::parse_virtual;
use aoe::plugin::settings::resolve;
use aoe::plugin::settings::resolve_all;
use aoe::plugin::settings::runtime_schema;
use aoe::plugin::settings::virtual_section;
use aoe::plugin::settings::FieldDescriptor;
use aoe::plugin::settings::ResolvedSetting;
use aoe::plugin::settings::SettingCandidate;
use aoe::plugin::settings::SettingSource;
use aoe::plugin::settings::ValidationKind;
use aoe::plugin::settings::WebWritePolicy;
use aoe::plugin::settings::WidgetKind;
use aoe::plugin_api::id::PluginId;
use aoe::plugin_api::manifest::PluginManifest;
use aoe::plugin_api::manifest::SettingContribution;
use aoe::plugin_api::manifest::SettingDefault;
use aoe::plugin_api::manifest::SettingWidget;

fn json(text: &str) -> Json {
    parse_json(text).unwrap()
}

#[test]
fn virtual_section_round_trips() {
    let section = virtual_section("aoe-status");
    assert_eq!(parse_virtual(&section), Some("aoe-status"));
    assert_eq!(parse_virtual("session"), None);
}

#[test]
fn nested_leaf_expands_virtual_sections() {
    let leaf = nested_leaf("plugin:aoe-status", "poll_interval_ms", json("500"));
    assert!(same_json(
        &leaf,
        &json("{\"plugins\":{\"aoe-status\":{\"settings\":{\"poll_interval_ms\":500}}}}")
    ));
    let core = nested_leaf("session", "yolo_mode_default", json("true"));
    assert!(same_json(&core, &json("{\"session\":{\"yolo_mode_default\":true}}")));
}

#[test]
fn json_at_descriptor_reads_both_shapes() {
    let root = json(
        "{\"session\":{\"yolo_mode_default\":true},\"plugins\":{\"aoe-status\":{\"enabled\":true,\"settings\":{\"poll_interval_ms\":500}}}}",
    );
    assert!(same_json(
        json_at_descriptor(&root, "session", "yolo_mode_default").unwrap(),
        &json("true")
    ));
    assert!(same_json(
        json_at_descriptor(&root, "plugin:aoe-status", "poll_interval_ms").unwrap(),
        &json("500")
    ));
    assert!(json_at_descriptor(&root, "plugin:missing", "x").is_none());
}

#[test]
fn leaves_read_back_where_they_were_written() {
    for section in ["session", "plugin:x", "plugin:", "plugins"] {
        let root = nested_leaf(section, "f", json("[1]"));
        assert!(same_json(json_at_descriptor(&root, section, "f").unwrap(), &json("[1]")));
    }
}

#[test]
fn patches_are_expanded_in_place() {
    let mut patch = json(
        "{\"session\":{\"a\":1},\"plugin:x\":{\"f\":{\"b\":2},\"g\":3},\"plugin:empty\":{},\"plugin:odd\":7,\"plugins\":{\"x\":{\"enabled\":true,\"settings\":{\"f\":{\"a\":1}}},\"y\":{}}}",
    );
    expand_virtual_sections(&mut patch);
    assert!(same_json(
        &patch,
        &json("{\"session\":{\"a\":1},\"plugins\":{\"x\":{\"enabled\":true,\"settings\":{\"f\":{\"a\":1,\"b\":2},\"g\":3}},\"y\":{}}}")
    ));
    let mut scalar = json("{\"plugins\":5,\"plugin:x\":{\"f\":1}}");
    expand_virtual_sections(&mut scalar);
    assert!(same_json(&scalar, &json("{\"plugins\":{\"x\":{\"settings\":{\"f\":1}}}}")));
    let mut list = json("[1]");
    expand_virtual_sections(&mut list);
    assert!(same_json(&list, &json("[1]")));
}

fn setting(key: &str, widget: SettingWidget, default: Option<toml::Value>) -> SettingContribution {
    SettingContribution {
        key: key.to_string(),
        label: format!("{key} label"),
        description: format!("{key} text"),
        widget,
        default,
    }
}

fn plugin(
    id: &str,
    settings: Vec<SettingContribution>,
    setting_defaults: Vec<SettingDefault>,
) -> LoadedPlugin {
    LoadedPlugin {
        manifest: PluginManifest {
            id: PluginId::new(id).unwrap(),
            capabilities: vec![],
            settings,
            setting_defaults,
            commands: vec![],
            ui: vec![],
            runtime: None,
        },
        root: None,
        source: PluginSource::Builtin,
        enabled: true,
        granted: true,
        settings: NameMap::new(),
    }
}

fn default_for(target: &str, value: i64, priority: i32) -> SettingDefault {
    SettingDefault {
        target: target.to_string(),
        value: toml::Value::Integer(value),
        priority,
    }
}

fn registry() -> PluginRegistry {
    PluginRegistry {
        plugins: vec![
            plugin(
                "aoe.status",
                vec![
                    setting("poll", SettingWidget::Toggle, Some(toml::Value::Integer(1000))),
                    setting("bare", SettingWidget::Select { options: vec!["x".into(), "y".into()] }, None),
                ],
                vec![default_for("aoe.status.poll", 1, 999)],
            ),
            plugin("z.last", vec![], vec![default_for("aoe.status.poll", 2, 5)]),
            plugin("b.weak", vec![], vec![default_for("aoe.status.poll", 3, 1)]),
            plugin("a.first", vec![], vec![default_for("aoe.status.poll", 4, 5)]),
        ],
    }
}

fn sources(setting: &ResolvedSetting) -> Vec<String> {
    setting
        .candidates
        .iter()
        .map(|c| match &c.source {
            SettingSource::PluginDefault { plugin, .. } => plugin.clone(),
            other => format!("{other:?}"),
        })
        .collect()
}

#[test]
fn the_strongest_override_wins_and_the_chain_is_complete() {
    let found = resolve(&registry(), "aoe.status", "poll").unwrap();
    assert_eq!(found.key, "aoe.status.poll");
    assert_eq!(found.value.as_u64(), Some(4));
    assert_eq!(
        found.source,
        SettingSource::PluginDefault { plugin: "a.first".into(), priority: 5 }
    );
    // The owner's own override does not count.
    assert_eq!(
        sources(&found),
        ["a.first", "z.last", "b.weak", "ManifestDefault", "SchemaDefault"]
    );
}

#[test]
fn the_listing_agrees_with_single_settings() {
    let registry = registry();
    let all = resolve_all(&registry);
    let keys: Vec<&str> = all.iter().map(|s| s.key.as_str()).collect();
    assert_eq!(keys, ["aoe.status.poll", "aoe.status.bare"]);
    for (key, listed) in ["poll", "bare"].iter().zip(&all) {
        let single = resolve(&registry, "aoe.status", key).unwrap();
        assert_eq!(single.source, listed.source);
        assert!(same_json(&single.value, &listed.value));
        assert_eq!(sources(&single), sources(listed));
    }
    assert!(resolve(&registry, "aoe.status", "nope").is_none());
}

#[test]
fn a_user_value_beats_every_default() {
    let mut registry = registry();
    registry.plugins[0].settings.insert("poll", toml::Value::String("fast".into()));
    let found = resolve(&registry, "aoe.status", "poll").unwrap();
    assert_eq!(found.source, SettingSource::UserConfig);
    assert_eq!(found.value.as_str(), Some("fast"));
    assert_eq!(found.candidates.len(), 6);
}

#[test]
fn inactive_plugins_neither_override_nor_resolve() {
    let mut registry = registry();
    for p in registry.plugins.iter_mut().skip(1) {
        p.granted = false;
    }
    let found = resolve(&registry, "aoe.status", "poll").unwrap();
    assert_eq!(found.source, SettingSource::ManifestDefault);
    assert_eq!(found.value.as_u64(), Some(1000));
    registry.plugins[0].enabled = false;
    assert!(resolve(&registry, "aoe.status", "poll").is_none());
    assert!(resolve_all(&registry).is_empty());
}

#[test]
fn widgets_have_zero_values() {
    let mut registry = registry();
    registry.plugins[0].manifest.settings = vec![
        setting("toggle", SettingWidget::Toggle, None),
        setting("text", SettingWidget::Text, None),
        setting("number", SettingWidget::Number { min: Some(3), max: None, start: json("3.5") }, None),
        setting("select", SettingWidget::Select { options: vec!["x".into()] }, None),
        setting("empty", SettingWidget::Select { options: vec![] }, None),
    ];
    let values: Vec<String> = resolve_all(&registry)
        .iter()
        .map(|s| aoe::json::render_json(&s.value))
        .collect();
    assert_eq!(values, ["false", "\"\"", "3.5", "\"x\"", "\"\""]);
}

#[test]
fn toml_values_become_json() {
    let mut registry = registry();
    let table: toml::Value = toml::from_str::<toml::Value>("a = [1, 2.5, true]\nb = \"t\"").unwrap();
    registry.plugins[0].settings.insert("bare", table);
    let found = resolve(&registry, "aoe.status", "bare").unwrap();
    assert!(same_json(&found.value, &json("{\"a\":[1,2.5,true],\"b\":\"t\"}")));
}

#[test]
fn the_schema_lists_core_fields_then_plugin_fields() {
    let core = vec![FieldDescriptor {
        section: "session".into(),
        field: "x".into(),
        category: "General".into(),
        label: "X".into(),
        description: String::new(),
        widget: WidgetKind::Toggle,
        web_write: WebWritePolicy::Deny,
        profile_overridable: true,
        validation: ValidationKind::NonEmpty,
        advanced: true,
    }];
    let schema = runtime_schema(core, &registry());
    let names: Vec<(&str, &str)> = schema.iter().map(|f| (f.section.as_str(), f.field.as_str())).collect();
    assert_eq!(
        names,
        [("session", "x"), ("plugin:aoe.status", "poll"), ("plugin:aoe.status", "bare")]
    );
    let bare = &schema[2];
    assert_eq!(bare.category, "Plugins");
    assert!(!bare.profile_overridable);
    assert_eq!(bare.web_write, WebWritePolicy::Allow);
    match &bare.widget {
        WidgetKind::Select { options } => {
            assert_eq!(options[1].value, "y");
            assert_eq!(options[1].label, "y");
        }
        other => panic!("{other:?}"),
    }
}

fn explain(key: Option<&str>, core: &Vec<ResolvedSetting>, registry: &PluginRegistry) -> Result<Vec<String>, String> {
    run(SettingsCommands::Explain { key: key.map(str::to_string) }, core, registry)
}

#[test]
fn test_settings_explain_resolves_plugin_default() {
    let registry = PluginRegistry {
        plugins: vec![plugin(
            "aoe.status",
            vec![setting("custom_agent_rules", SettingWidget::Toggle, Some(toml::Value::Boolean(true)))],
            vec![],
        )],
    };
    let lines = explain(Some("aoe.status.custom_agent_rules"), &vec![], &registry).unwrap();
    let stdout = lines.join("\n");
    // No user value set: the manifest default wins and the chain says so.
    assert!(
        stdout.contains("manifest default"),
        "expected manifest-default provenance:\n{stdout}"
    );
    assert!(
        stdout.contains("true"),
        "expected the default value in the output:\n{stdout}"
    );
    assert_eq!(
        lines,
        [
            "aoe.status.custom_agent_rules = true",
            "resolved from: owning plugin's manifest default",
            "",
            "resolution chain (first wins):",
            "-> owning plugin's manifest default = true",
            "   widget default = false",
        ]
    );
}

#[test]
fn explain_lists_every_setting() {
    let lines = explain(None, &vec![], &registry()).unwrap();
    assert_eq!(
        lines,
        [
            "aoe.status.poll = 4  [default override by plugin a.first (priority 5)]",
            "aoe.status.bare = \"x\"  [widget default]",
        ]
    );
    let none = PluginRegistry { plugins: vec![] };
    assert_eq!(explain(None, &vec![], &none).unwrap(), ["No active plugin settings."]);
}

#[test]
fn explain_prefers_core_settings_and_refuses_unknown_keys() {
    let core = vec![ResolvedSetting {
        key: "session.x".into(),
        value: json("1"),
        source: SettingSource::CoreDefault,
        candidates: vec![
            SettingCandidate { source: SettingSource::CoreDefault, value: json("1") },
        ],
    }];
    let lines = explain(Some("session.x"), &core, &registry()).unwrap();
    assert_eq!(lines[1], "resolved from: built-in default");
    assert_eq!(
        explain(Some("nodot"), &core, &registry()).unwrap_err(),
        "key must be <plugin-id>.<key> or <section>.<field>, got \"nodot\""
    );
    assert_eq!(
        explain(Some("aoe.status.nope"), &core, &registry()).unwrap_err(),
        "\"aoe.status.nope\" is neither a core setting nor a setting of an active plugin (is the plugin enabled and granted?)"
    );
}
