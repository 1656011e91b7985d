use aoe::name_map::NameMap;
use aoe::plugin::registry::LoadedPlugin;
use aoe::plugin::registry::PluginRegistry;
use aoe::plugin::registry::PluginSource;
use aoe::plugin::ui::notify;
use aoe::plugin::ui::set_state;
use aoe::plugin::ui::Block;
use aoe::plugin::ui::Severity;
use aoe::plugin::ui::UiPayload;
use aoe::plugin::ui::UiStore;
use aoe::plugin_api::id::PluginId;
use aoe::plugin_api::manifest::PluginManifest;
use aoe::plugin_api::manifest::UiContribution;
use aoe::plugin_api::manifest::UiSlot;
use aoe::tui::dialogs::centered_rect;
use aoe::tui::dialogs::plugin_panels::PluginPanelsDialog;
use aoe::tui::dialogs::sort_picker::SortChoice;
use aoe::tui::dialogs::sort_picker::SortLabels;
use aoe::tui::dialogs::sort_picker::SortOrder;
use aoe::tui::dialogs::sort_picker::SortPickerDialog;
use aoe::tui::dialogs::DialogResult;
use aoe::tui::dialogs::Key;
use aoe::tui::dialogs::Rect;
use aoe::tui::dialogs::StyledLine;
use aoe::tui::dialogs::Tone;

fn labels() -> SortLabels {
    SortLabels {
        newest: "Newest".into(),
        attention: "Attention".into(),
        last_activity: "Last activity".into(),
        oldest: "Oldest".into(),
        az: "A-Z".into(),
        za: "Z-A".into(),
    }
}

fn contribution(id: &str, slot: UiSlot) -> UiContribution {
    UiContribution {
        id: id.to_string(),
        slot,
        title: format!("{id} title"),
        priority: 0,
    }
}

fn registry() -> PluginRegistry {
    PluginRegistry {
        plugins: vec![LoadedPlugin {
            manifest: PluginManifest {
                id: PluginId::new("p.q").unwrap(),
                capabilities: vec![],
                settings: vec![],
                setting_defaults: vec![],
                commands: vec![],
                ui: vec![
                    contribution("urgency", UiSlot::SessionListSortKey),
                    contribution("card", UiSlot::DashboardCard),
                    contribution("badge", UiSlot::SessionDetailHeaderBadge),
                    contribution("panel", UiSlot::SessionDetailPanel),
                ],
                runtime: None,
            },
            root: None,
            source: PluginSource::Builtin,
            enabled: true,
            granted: true,
            settings: NameMap::new(),
        }],
    }
}

fn empty_registry() -> PluginRegistry {
    PluginRegistry { plugins: vec![] }
}

fn picker(order: SortOrder) -> SortPickerDialog {
    SortPickerDialog::new(order, None, &empty_registry(), &labels())
}

#[test]
fn test_new_selects_current() {
    let dialog = picker(SortOrder::LastActivity);
    assert_eq!(dialog.selected(), 2);
}

#[test]
fn test_esc_cancels() {
    let mut dialog = picker(SortOrder::Newest);
    assert!(matches!(
        dialog.handle_key(Key::Esc),
        DialogResult::Cancel
    ));
}

#[test]
fn test_enter_submits_selection() {
    let mut dialog = picker(SortOrder::Newest);
    dialog.handle_key(Key::Down);
    dialog.handle_key(Key::Down);
    let result = dialog.handle_key(Key::Enter);
    assert!(matches!(
        result,
        DialogResult::Submit(SortChoice::Core(SortOrder::LastActivity))
    ));
}

#[test]
fn test_navigation_clamps() {
    let mut dialog = picker(SortOrder::Newest);
    dialog.handle_key(Key::Up);
    assert_eq!(dialog.selected(), 0);
    for _ in 0..30 {
        dialog.handle_key(Key::Down);
    }
    assert!(dialog.selected() >= 6 - 1);
}

#[test]
fn a_vanished_plugin_mode_falls_back_to_the_core_order() {
    let wanted = Some(("p.q".to_string(), "urgency".to_string()));
    let mut there = SortPickerDialog::new(SortOrder::AZ, wanted.clone(), &registry(), &labels());
    assert_eq!(there.selected(), 6);
    match there.handle_key(Key::Enter) {
        DialogResult::Submit(choice) => assert_eq!(
            choice,
            SortChoice::Plugin { plugin_id: "p.q".into(), contribution_id: "urgency".into() }
        ),
        other => panic!("{other:?}"),
    }
    let gone = SortPickerDialog::new(SortOrder::AZ, wanted, &empty_registry(), &labels());
    assert_eq!(gone.selected(), 4);
}

fn texts(line: &StyledLine) -> Vec<(&str, Tone)> {
    line.spans.iter().map(|s| (s.text.as_str(), s.tone)).collect()
}

#[test]
fn the_picker_shows_its_rows_and_takes_clicks() {
    let mut dialog = SortPickerDialog::new(SortOrder::Newest, None, &registry(), &labels());
    dialog.handle_key(Key::Char('j'));
    let view = dialog.render(Rect { x: 0, y: 0, width: 80, height: 24 });
    // 19 characters in the widest label, 7 rows.
    assert_eq!(view.dialog, Rect { x: 22, y: 6, width: 35, height: 12 });
    assert_eq!(view.list, Rect { x: 24, y: 8, width: 31, height: 7 });
    assert_eq!(view.hint, Rect { x: 24, y: 15, width: 31, height: 1 });
    assert_eq!(view.lines.len(), 7);
    assert_eq!(
        texts(&view.lines[0]),
        [("  ", Tone::Text), ("Newest", Tone::Text), ("  (current)", Tone::Running)]
    );
    assert_eq!(texts(&view.lines[1]), [("> ", Tone::AccentBold), ("Attention", Tone::AccentBold)]);
    assert_eq!(texts(&view.lines[6])[1], ("urgency title (p.q)", Tone::Text));
    assert_eq!(
        texts(&view.hint_line),
        [("Enter", Tone::Hint), (" select  ", Tone::Plain), ("Esc", Tone::Hint), (" close", Tone::Plain)]
    );
    assert!(dialog.handle_hover(30, 10));
    assert_eq!(dialog.selected(), 2);
    assert!(!dialog.handle_hover(30, 10));
    assert!(!dialog.handle_hover(0, 0));
    assert!(matches!(dialog.handle_click(23, 7), DialogResult::Continue));
    assert!(matches!(dialog.handle_click(0, 0), DialogResult::Cancel));
    assert!(matches!(
        dialog.handle_click(30, 8),
        DialogResult::Submit(SortChoice::Core(SortOrder::Newest))
    ));
    assert_eq!(dialog.selected(), 0);
}

#[test]
fn the_picker_fits_screens_only() {
    let dialog = picker(SortOrder::Newest);
    assert!(dialog.can_render(Rect { x: 0, y: 0, width: 1, height: 1 }));
    assert!(dialog.can_render(Rect { x: 65534, y: 0, width: 1, height: 65535 }));
    assert!(!dialog.can_render(Rect { x: 65535, y: 0, width: 1, height: 1 }));
    let mut wide = labels();
    wide.za = "x".repeat(65535);
    let wide = SortPickerDialog::new(SortOrder::Newest, None, &empty_registry(), &wide);
    assert!(!wide.can_render(Rect { x: 0, y: 0, width: 80, height: 24 }));
}

#[test]
fn rects_hold_their_cells_and_are_centered() {
    let area = Rect { x: 2, y: 3, width: 4, height: 1 };
    assert!(area.contains(2, 3));
    assert!(area.contains(5, 3));
    assert!(!area.contains(6, 3));
    assert!(!area.contains(2, 4));
    assert!(!area.contains(1, 3));
    let edge = Rect { x: 65530, y: 65530, width: 100, height: 100 };
    assert!(edge.contains(65534, 65534));
    assert!(!edge.contains(65535, 65534));
    let screen = Rect { x: 0, y: 0, width: 10, height: 4 };
    assert_eq!(centered_rect(screen, 4, 9), Rect { x: 3, y: 0, width: 4, height: 4 });
}

fn joined(line: &StyledLine) -> String {
    line.spans.iter().map(|s| s.text.as_str()).collect()
}

#[test]
fn empty_panels_say_so() {
    let dialog = PluginPanelsDialog::new(None);
    let view = dialog.render(
        Rect { x: 0, y: 0, width: 120, height: 40 },
        &UiStore::new(),
        &registry(),
        0,
    );
    assert_eq!(view.dialog, Rect { x: 10, y: 4, width: 100, height: 32 });
    assert_eq!(view.inner, Rect { x: 11, y: 5, width: 98, height: 30 });
    let lines: Vec<String> = view.lines.iter().map(joined).collect();
    assert_eq!(
        lines,
        [
            "No plugin panels or notifications. Plugins with ui contributions populate this view as they push state.",
            "",
            "j/k scroll · esc close"
        ]
    );
}

#[test]
fn panels_show_cards_sessions_and_notifications() {
    let registry = registry();
    let mut store = UiStore::new();
    let blocks = |blocks: Vec<Block>| UiPayload::Blocks { severity: Severity::Warning, blocks };
    set_state(
        &mut store,
        &registry,
        "p.q",
        "card",
        None,
        None,
        blocks(vec![
            Block::Text { text: "hello".into(), severity: Severity::Error },
            Block::Kv { items: vec![("k".into(), "v".into())] },
            Block::List { items: vec!["one".into(), "two".into()] },
            Block::Metric { label: "open".into(), value: "3".into() },
        ]),
        0,
    )
    .unwrap();
    let badge = UiPayload::Badge { text: "hot".into(), severity: Severity::Info, tooltip: String::new() };
    set_state(&mut store, &registry, "p.q", "badge", Some("s1".into()), None, badge, 0).unwrap();
    set_state(&mut store, &registry, "p.q", "panel", Some("s1".into()), None, blocks(vec![]), 0).unwrap();
    notify(&mut store, &registry, "p.q", "First".into(), String::new(), Severity::Info, None).unwrap();
    notify(&mut store, &registry, "p.q", "Second".into(), "more".into(), Severity::Success, None).unwrap();
    let dialog = PluginPanelsDialog::new(Some(("s1".into(), "My session".into())));
    let view = dialog.render(Rect { x: 0, y: 0, width: 20, height: 10 }, &store, &registry, 0);
    assert_eq!(view.dialog, Rect { x: 0, y: 0, width: 20, height: 10 });
    let lines: Vec<String> = view.lines.iter().map(joined).collect();
    assert_eq!(
        lines,
        [
            "card title  (p.q)",
            "  hello",
            "  k: v",
            "  - one",
            "  - two",
            "  3 open",
            "",
            "Session: My session  [hot]",
            "",
            "panel title  (p.q)",
            "",
            "Notifications",
            "\u{2691} Second  (p.q)  more",
            "\u{2691} First  (p.q)",
            "",
            "j/k scroll · esc close"
        ]
    );
    assert_eq!(texts(&view.lines[0])[0].1, Tone::TintBold(Severity::Warning));
    assert_eq!(texts(&view.lines[1])[0].1, Tone::Tint(Severity::Error));
    let elsewhere = PluginPanelsDialog::new(Some(("s2".into(), "Other".into())));
    let view = elsewhere.render(Rect { x: 0, y: 0, width: 20, height: 10 }, &store, &registry, 0);
    assert!(!view.lines.iter().map(joined).any(|l| l.contains("Session")));
}

#[test]
fn panels_scroll_within_bounds() {
    let mut dialog = PluginPanelsDialog::new(None);
    assert!(matches!(dialog.handle_key(Key::Up), DialogResult::Continue));
    assert_eq!(dialog.scroll, 0);
    dialog.handle_key(Key::Down);
    dialog.handle_key(Key::Char('j'));
    dialog.handle_key(Key::Char('k'));
    assert_eq!(dialog.scroll, 1);
    dialog.scroll = u16::MAX;
    dialog.handle_key(Key::Down);
    assert_eq!(dialog.scroll, u16::MAX);
    assert!(matches!(dialog.handle_key(Key::Enter), DialogResult::Continue));
    assert!(matches!(dialog.handle_key(Key::Char('q')), DialogResult::Cancel));
    assert!(matches!(dialog.handle_key(Key::Esc), DialogResult::Cancel));
}
