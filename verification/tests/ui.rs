use aoe::name_map::NameMap;
use aoe::plugin::registry::LoadedPlugin;
use aoe::plugin::registry::PluginRegistry;
use aoe::plugin::registry::PluginSource;
use aoe::plugin::ui::all_entries;
use aoe::plugin::ui::declared;
use aoe::plugin::ui::entries;
use aoe::plugin::ui::entries_by_session;
use aoe::plugin::ui::evict_except;
use aoe::plugin::ui::facet_haystack;
use aoe::plugin::ui::notifications;
use aoe::plugin::ui::notify;
use aoe::plugin::ui::remove_state;
use aoe::plugin::ui::revision;
use aoe::plugin::ui::set_state;
use aoe::plugin::ui::sort_keys;
use aoe::plugin::ui::Block;
use aoe::plugin::ui::FloatBits;
use aoe::plugin::ui::Severity;
use aoe::plugin::ui::UiPayload;
use aoe::plugin::ui::UiStore;
use aoe::plugin::ui::MAX_NOTIFICATIONS;
use aoe::plugin::ui::MAX_TEXT;
use aoe::plugin_api::id::PluginId;
use aoe::plugin_api::manifest::PluginManifest;
use aoe::plugin_api::manifest::UiContribution;
use aoe::plugin_api::manifest::UiSlot;

fn contribution(id: &str, slot: UiSlot, priority: i32) -> UiContribution {
    UiContribution {
        id: id.to_string(),
        slot,
        title: format!("{id} title"),
        priority,
    }
}

fn plugin(id: &str, enabled: bool, ui: Vec<UiContribution>) -> LoadedPlugin {
    LoadedPlugin {
        manifest: PluginManifest {
            id: PluginId::new(id).unwrap(),
            capabilities: vec![],
            settings: vec![],
            setting_defaults: vec![],
            commands: vec![],
            ui,
            runtime: None,
        },
        root: None,
        source: PluginSource::Builtin,
        enabled,
        granted: true,
        settings: NameMap::new(),
    }
}

fn registry() -> PluginRegistry {
    PluginRegistry {
        plugins: vec![
            plugin(
                "a.one",
                true,
                vec![
                    contribution("badge", UiSlot::SessionListRowBadge, 1),
                    contribution("bar", UiSlot::StatusBarSegment, 0),
                    contribution("rank", UiSlot::SessionListSortKey, 0),
                    contribution("facets", UiSlot::SessionListFilterFacet, 0),
                ],
            ),
            plugin(
                "b.two",
                true,
                vec![
                    contribution("badge", UiSlot::SessionListRowBadge, 5),
                    contribution("card", UiSlot::DashboardCard, 0),
                ],
            ),
            plugin(
                "c.off",
                false,
                vec![contribution("bar", UiSlot::StatusBarSegment, 9)],
            ),
        ],
    }
}

fn badge(text: &str) -> UiPayload {
    UiPayload::Badge {
        text: text.to_string(),
        severity: Severity::Info,
        tooltip: String::new(),
    }
}

fn key(value: f64) -> FloatBits {
    FloatBits {
        bits: value.to_bits(),
    }
}

#[test]
fn payload_slot_compatibility_and_caps() {
    let badge = UiPayload::Badge {
        text: "blocked".into(),
        severity: Severity::Error,
        tooltip: String::new(),
    };
    assert!(badge.validate_for(UiSlot::SessionListRowBadge).is_ok());
    assert!(badge.validate_for(UiSlot::StatusBarSegment).is_ok());
    assert!(badge.validate_for(UiSlot::DashboardCard).is_err());

    let huge = UiPayload::Badge {
        text: "x".repeat(MAX_TEXT + 1),
        severity: Severity::Info,
        tooltip: String::new(),
    };
    assert!(huge.validate_for(UiSlot::StatusBarSegment).is_err());

    let nan = UiPayload::SortKey {
        key: key(f64::NAN),
        reason: String::new(),
    };
    assert!(nan.validate_for(UiSlot::SessionListSortKey).is_err());

    let blocks = UiPayload::Blocks {
        severity: Severity::Info,
        blocks: vec![Block::Metric {
            label: "Needs review".into(),
            value: "3".into(),
        }],
    };
    assert!(blocks.validate_for(UiSlot::DashboardCard).is_ok());
    assert!(blocks.validate_for(UiSlot::SessionListSortKey).is_err());
}

#[test]
fn finite_bits_agree_with_the_float() {
    for value in [0.0, -0.0, 1.5, f64::MAX, f64::MIN_POSITIVE, f64::NAN, f64::INFINITY, f64::NEG_INFINITY] {
        assert_eq!(key(value).is_finite(), value.is_finite(), "{value}");
    }
}

#[test]
fn refusals_say_why() {
    let slot_refusal = badge("x").validate_for(UiSlot::DashboardCard).unwrap_err();
    assert_eq!(slot_refusal, "payload kind does not match slot dashboard-card");
    let infinite = UiPayload::SortKey {
        key: key(f64::INFINITY),
        reason: String::new(),
    };
    assert_eq!(
        infinite.validate_for(UiSlot::SessionListSortKey).unwrap_err(),
        "sort key must be finite"
    );
    let reason = UiPayload::SortKey {
        key: key(1.0),
        reason: "r".repeat(201),
    };
    assert_eq!(
        reason.validate_for(UiSlot::SessionListSortKey).unwrap_err(),
        "sort reason longer than 200 chars"
    );
    let cell = UiPayload::Cell {
        text: "c".repeat(201),
        severity: Severity::Info,
        sort_key: None,
    };
    assert_eq!(
        cell.validate_for(UiSlot::SessionListColumn).unwrap_err(),
        "cell text longer than 200 chars"
    );
    let facets = UiPayload::Facets {
        values: vec![String::new(); 9],
    };
    assert_eq!(
        facets.validate_for(UiSlot::SessionListFilterFacet).unwrap_err(),
        "at most 8 facets of 200 chars"
    );
    let blocks = |blocks: Vec<Block>| UiPayload::Blocks {
        severity: Severity::Info,
        blocks,
    };
    let refuse = |given: Vec<Block>| blocks(given).validate_for(UiSlot::DashboardCard).unwrap_err();
    let many: Vec<Block> = (0..33)
        .map(|_| Block::List { items: vec![] })
        .collect();
    assert_eq!(refuse(many), "at most 32 blocks");
    assert_eq!(
        refuse(vec![Block::Text { text: "t".repeat(201), severity: Severity::Info }]),
        "block text longer than 200 chars"
    );
    assert_eq!(
        refuse(vec![Block::Kv { items: vec![("k".repeat(201), String::new())] }]),
        "kv block too large"
    );
    assert_eq!(
        refuse(vec![Block::List { items: vec![String::new(); 65] }]),
        "list block too large"
    );
    assert_eq!(
        refuse(vec![
            Block::List { items: vec![] },
            Block::Metric { label: String::new(), value: "v".repeat(201) },
        ]),
        "metric block too large"
    );
    // Characters count, not bytes.
    assert!(badge(&"ü".repeat(200)).validate_for(UiSlot::StatusBarSegment).is_ok());
    assert_eq!(
        badge(&"ü".repeat(201)).validate_for(UiSlot::StatusBarSegment).unwrap_err(),
        "badge text/tooltip longer than 200 chars"
    );
}

#[test]
fn pushed_state_reads_back_until_it_expires() {
    let registry = registry();
    let mut store = UiStore::new();
    let before = revision(&store);
    set_state(&mut store, &registry, "a.one", "badge", Some("s1".into()), Some(100), badge("hi"), 1000)
        .unwrap();
    assert_ne!(revision(&store), before);
    let shown = entries(&store, &registry, UiSlot::SessionListRowBadge, Some("s1"), 1099);
    assert_eq!(shown.len(), 1);
    assert_eq!(shown[0].title, "badge title");
    assert_eq!(shown[0].session_id.as_deref(), Some("s1"));
    assert!(matches!(&shown[0].payload, UiPayload::Badge { text, .. } if text == "hi"));
    assert!(entries(&store, &registry, UiSlot::SessionListRowBadge, Some("s1"), 1100).is_empty());
    assert!(entries(&store, &registry, UiSlot::SessionListRowBadge, Some("s2"), 1000).is_empty());
    assert!(entries(&store, &registry, UiSlot::StatusBarSegment, None, 1000).is_empty());
}

#[test]
fn the_longest_ttl_outlives_the_clock() {
    let registry = registry();
    let mut store = UiStore::new();
    let session = Some("s1".to_string());
    set_state(&mut store, &registry, "a.one", "badge", session, Some(u64::MAX), badge("hi"), 5).unwrap();
    let shown = entries(&store, &registry, UiSlot::SessionListRowBadge, Some("s1"), u64::MAX);
    assert_eq!(shown.len(), 1);
}

#[test]
fn a_second_push_replaces_the_first_in_its_place_only() {
    let registry = registry();
    let mut store = UiStore::new();
    for (session, text) in [("s1", "one"), ("s2", "two"), ("s1", "three")] {
        set_state(&mut store, &registry, "a.one", "badge", Some(session.into()), None, badge(text), 0)
            .unwrap();
    }
    let by_session = entries_by_session(&store, &registry, UiSlot::SessionListRowBadge, 0);
    assert_eq!(by_session.keys(), vec!["s1".to_string(), "s2".to_string()]);
    let s1 = by_session.get("s1").unwrap();
    assert_eq!(s1.len(), 1);
    assert!(matches!(&s1[0].payload, UiPayload::Badge { text, .. } if text == "three"));
    let s2 = by_session.get("s2").unwrap();
    assert!(matches!(&s2[0].payload, UiPayload::Badge { text, .. } if text == "two"));
}

#[test]
fn refused_pushes_leave_the_store_alone() {
    let registry = registry();
    let mut store = UiStore::new();
    let mut push = |plugin: &str, id: &str, session: Option<&str>, payload: UiPayload| {
        set_state(&mut store, &registry, plugin, id, session.map(str::to_string), None, payload, 0)
            .unwrap_err()
    };
    assert_eq!(
        push("c.off", "bar", None, badge("x")),
        "plugin c.off is not active"
    );
    assert_eq!(
        push("a.one", "nope", None, badge("x")),
        "plugin a.one declares no ui contribution \"nope\""
    );
    assert_eq!(
        push("a.one", "badge", None, badge("x")),
        "slot session-list-row-badge needs a session_id"
    );
    assert_eq!(
        push("a.one", "bar", Some("s1"), badge("x")),
        "slot status-bar-segment is global; drop session_id"
    );
    assert_eq!(
        push("b.two", "card", None, badge("x")),
        "payload kind does not match slot dashboard-card"
    );
    assert_eq!(revision(&store), 0);
    assert!(all_entries(&store, &registry, 0).is_empty());
}

#[test]
fn entries_come_by_priority_then_plugin() {
    let registry = registry();
    let mut store = UiStore::new();
    set_state(&mut store, &registry, "a.one", "badge", Some("s1".into()), None, badge("a"), 0).unwrap();
    set_state(&mut store, &registry, "b.two", "badge", Some("s1".into()), None, badge("b"), 0).unwrap();
    set_state(&mut store, &registry, "a.one", "bar", None, None, badge("bar"), 0).unwrap();
    let shown = entries(&store, &registry, UiSlot::SessionListRowBadge, None, 0);
    let order: Vec<&str> = shown.iter().map(|e| e.plugin_id.as_str()).collect();
    assert_eq!(order, ["b.two", "a.one"]);
    let all = all_entries(&store, &registry, 0);
    let slots: Vec<UiSlot> = all.iter().map(|e| e.slot).collect();
    assert_eq!(
        slots,
        [
            UiSlot::StatusBarSegment,
            UiSlot::SessionListRowBadge,
            UiSlot::SessionListRowBadge
        ]
    );
}

#[test]
fn declared_lists_active_contributions_in_order() {
    let registry = registry();
    let found = declared(&registry, UiSlot::SessionListRowBadge);
    let order: Vec<(&str, i32)> = found.iter().map(|(p, c)| (p.as_str(), c.priority)).collect();
    assert_eq!(order, [("b.two", 5), ("a.one", 1)]);
    let bars = declared(&registry, UiSlot::StatusBarSegment);
    assert_eq!(bars.len(), 1);
    assert_eq!(bars[0].0, "a.one");
}

#[test]
fn removal_takes_one_session_or_all() {
    let registry = registry();
    let mut store = UiStore::new();
    for session in ["s1", "s2"] {
        set_state(&mut store, &registry, "a.one", "badge", Some(session.into()), None, badge("x"), 0)
            .unwrap();
    }
    remove_state(&mut store, &registry, "a.one", "badge", Some("s1".into())).unwrap();
    let left = entries(&store, &registry, UiSlot::SessionListRowBadge, None, 0);
    assert_eq!(left.len(), 1);
    assert_eq!(left[0].session_id.as_deref(), Some("s2"));
    remove_state(&mut store, &registry, "a.one", "badge", None).unwrap();
    assert!(entries(&store, &registry, UiSlot::SessionListRowBadge, None, 0).is_empty());
    assert!(remove_state(&mut store, &registry, "a.one", "nope", None).is_err());
}

#[test]
fn the_ring_keeps_the_newest_notifications() {
    let registry = registry();
    let mut store = UiStore::new();
    for i in 0..(MAX_NOTIFICATIONS + 3) {
        notify(&mut store, &registry, "a.one", format!("n{i}"), String::new(), Severity::Info, None)
            .unwrap();
    }
    let ring = notifications(&store);
    assert_eq!(ring.len(), 50);
    assert_eq!(ring[0].title, "n52");
    assert_eq!(ring[0].seq, 53);
    assert_eq!(ring[49].title, "n3");
    assert_eq!(store.last_seq(), 53);
}

#[test]
fn notifications_are_checked() {
    let registry = registry();
    let mut store = UiStore::new();
    let mut send = |plugin: &str, title: &str, body: &str| {
        notify(&mut store, &registry, plugin, title.into(), body.into(), Severity::Warning, None)
    };
    assert_eq!(send("c.off", "t", "").unwrap_err(), "plugin c.off is not active");
    let wording = "notification title must be 1..=200 chars, body <= 200";
    assert_eq!(send("a.one", "", "").unwrap_err(), wording);
    assert_eq!(send("a.one", &"t".repeat(201), "").unwrap_err(), wording);
    assert_eq!(send("a.one", "t", &"b".repeat(201)).unwrap_err(), wording);
    assert!(send("a.one", &"t".repeat(200), &"b".repeat(200)).is_ok());
    assert_eq!(notifications(&store).len(), 1);
}

#[test]
fn eviction_forgets_plugins_that_are_not_active() {
    let registry = registry();
    let mut store = UiStore::new();
    set_state(&mut store, &registry, "a.one", "bar", None, None, badge("a"), 0).unwrap();
    set_state(&mut store, &registry, "b.two", "badge", Some("s".into()), None, badge("b"), 0).unwrap();
    notify(&mut store, &registry, "a.one", "from a".into(), String::new(), Severity::Info, None).unwrap();
    notify(&mut store, &registry, "b.two", "from b".into(), String::new(), Severity::Info, None).unwrap();
    evict_except(&mut store, &vec!["b.two".to_string()]);
    let left = all_entries(&store, &registry, 0);
    assert_eq!(left.len(), 1);
    assert_eq!(left[0].plugin_id, "b.two");
    let ring = notifications(&store);
    assert_eq!(ring.len(), 1);
    assert_eq!(ring[0].title, "from b");
    assert_eq!(store.last_seq(), 2);
}

#[test]
fn sort_keys_and_facets_read_back() {
    let registry = registry();
    let mut store = UiStore::new();
    for (session, value) in [("s1", 1.5), ("s2", -2.0)] {
        let payload = UiPayload::SortKey { key: key(value), reason: String::new() };
        set_state(&mut store, &registry, "a.one", "rank", Some(session.into()), None, payload, 0).unwrap();
    }
    let keys = sort_keys(&store, &registry, "a.one", "rank", 0);
    assert_eq!(keys.get("s1").map(|k| f64::from_bits(k.bits)), Some(1.5));
    assert_eq!(keys.get("s2").map(|k| f64::from_bits(k.bits)), Some(-2.0));
    assert!(sort_keys(&store, &registry, "a.one", "other", 0).is_empty());
    let facets = UiPayload::Facets { values: vec!["red".into(), "urgent".into()] };
    set_state(&mut store, &registry, "a.one", "facets", Some("s1".into()), None, facets, 0).unwrap();
    assert_eq!(facet_haystack(&store, &registry, "s1", 0), "red urgent");
    assert_eq!(facet_haystack(&store, &registry, "s2", 0), "");
}
