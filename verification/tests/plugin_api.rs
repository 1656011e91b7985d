use aoe::json::render_json;
use aoe::json::Json;
use aoe::plugin_api::capability::Capability;
use aoe::plugin_api::id::PluginId;
use aoe::plugin_api::manifest::UiSlot;

fn all_capabilities() -> Vec<Capability> {
    vec![
        Capability::SessionsRead,
        Capability::SessionsMetaWrite,
        Capability::PaneRead,
        Capability::EventsSubscribe,
        Capability::EventsPublish,
        Capability::ProcessSpawn,
        Capability::NetFetch,
        Capability::FsRead,
        Capability::FsWrite,
        Capability::AgentReconcile,
        Capability::AgentHooks,
        Capability::CliTopLevel,
    ]
}

/// `SessionsMetaWrite` as `sessions-meta-write`.
fn kebab_case(name: &str) -> String {
    let mut out = String::new();
    for (i, c) in name.chars().enumerate() {
        if i > 0 && c.is_ascii_uppercase() {
            out.push('-');
        }
        out.push(c.to_ascii_lowercase());
    }
    out
}

#[test]
fn serde_uses_kebab_case_matching_as_str() {
    for cap in all_capabilities() {
        let json = format!("\"{}\"", kebab_case(&format!("{cap:?}")));
        assert_eq!(json, format!("\"{}\"", cap.as_str()));
        assert_eq!(render_json(&Json::text(cap.as_str())), json);
        let back: String = serde_json::from_str(&json).unwrap();
        assert_eq!(Capability::from_name(&back), Some(cap));
    }
    assert_eq!(Capability::CliTopLevel.as_str(), "cli-top-level");
    assert_eq!(Capability::SessionsMetaWrite.as_str(), "sessions-meta-write");
}

#[test]
fn unknown_capability_is_rejected() {
    let name: String = serde_json::from_str("\"root-access\"").unwrap();
    assert!(Capability::from_name(&name).is_none());
}

#[test]
fn capability_names_are_all_different() {
    let all = all_capabilities();
    for (i, a) in all.iter().enumerate() {
        for b in all.iter().skip(i + 1) {
            assert_ne!(a.as_str(), b.as_str());
        }
    }
}

#[test]
fn accepts_dotted_lowercase_ids() {
    for ok in ["aoe.status", "a", "someuser.review-helper", "x.y2.z-3"] {
        assert!(PluginId::new(ok).is_ok(), "{ok} should be valid");
    }
}

#[test]
fn rejects_malformed_ids() {
    for bad in [
        "",
        "Aoe.status",
        "aoe..status",
        "aoe.2fast",
        "-x",
        "aoe.st_at",
        "aoe.st at",
    ] {
        assert!(PluginId::new(bad).is_err(), "{bad} should be rejected");
    }
}

#[test]
fn serde_round_trips_and_validates() {
    let text: String = serde_json::from_str("\"aoe.status\"").unwrap();
    let id = PluginId::try_from(text).unwrap();
    assert_eq!(id.as_str(), "aoe.status");
    assert_eq!(
        serde_json::to_string(&String::from(id.clone())).unwrap(),
        "\"aoe.status\""
    );
    let bad: String = serde_json::from_str("\"Not Valid\"").unwrap();
    assert!(PluginId::try_from(bad).is_err());
}

#[test]
fn refused_id_names_itself_and_the_reason() {
    let message = |id: &str| PluginId::new(id).unwrap_err().message();
    assert_eq!(message(""), "invalid plugin id \"\": empty");
    assert_eq!(
        message("Aoe.status"),
        "invalid plugin id \"Aoe.status\": each dot-separated segment must start with a lowercase letter"
    );
    assert_eq!(
        message("aoe.st_at"),
        "invalid plugin id \"aoe.st_at\": segments may only contain lowercase letters, digits, and hyphens"
    );
    assert_eq!(PluginId::new("A").unwrap_err().reason, "each dot-separated segment must start with a lowercase letter");
}

#[test]
fn id_length_is_limited() {
    assert!(PluginId::new(&"a".repeat(64)).is_ok());
    let err = PluginId::new(&"a".repeat(65)).unwrap_err();
    assert_eq!(err.reason, "longer than 64 bytes");
}

#[test]
fn slots_have_names_and_scopes() {
    assert_eq!(UiSlot::StatusBarSegment.as_str(), "status-bar-segment");
    assert_eq!(UiSlot::SessionDetailPanel.as_str(), "session-detail-panel");
    assert!(!UiSlot::StatusBarSegment.session_scoped());
    assert!(!UiSlot::DashboardCard.session_scoped());
    assert!(UiSlot::SessionListSortKey.session_scoped());
}
