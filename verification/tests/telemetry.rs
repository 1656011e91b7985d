use aoe::plugin::registry::PluginSource;
use aoe::telemetry::plugins::adoption_from;
use aoe::telemetry::plugins::PluginAdoption;

fn run(entries: Vec<(&str, PluginSource, bool, bool)>) -> PluginAdoption {
    adoption_from(
        entries
            .into_iter()
            .map(|(id, source, active, featured)| (id.to_string(), source, active, featured))
            .collect(),
    )
}

#[test]
fn builtin_ids_are_reported_with_active_state() {
    let adoption = run(vec![
        ("aoe.status", PluginSource::Builtin, true, false),
        ("aoe.web", PluginSource::Builtin, false, false),
    ]);
    assert_eq!(adoption.active.get("aoe.status"), Some(&true));
    assert_eq!(adoption.active.get("aoe.web"), Some(&false));
    assert_eq!(adoption.by_source.get("builtin"), Some(&2));
}

#[test]
fn unfeatured_installs_are_counted_but_never_identified() {
    let adoption = run(vec![
        (
            "secret.plugin",
            PluginSource::GitHub {
                slug: "corp/private-repo".into(),
            },
            true,
            false,
        ),
        (
            "local.thing",
            PluginSource::Path {
                path: "/home/u/dev/plugin".into(),
            },
            true,
            false,
        ),
    ]);
    assert!(adoption.active.is_empty());
    assert_eq!(adoption.by_source.get("github"), Some(&1));
    assert_eq!(adoption.by_source.get("path"), Some(&1));
    // No value derived from the slug or path may appear anywhere.
    let keys: Vec<_> = adoption.active.keys();
    assert!(keys.is_empty(), "{keys:?}");
}

#[test]
fn featured_github_plugins_are_identified() {
    let adoption = run(vec![(
        "acme.review",
        PluginSource::GitHub {
            slug: "acme/aoe-review".into(),
        },
        true,
        true,
    )]);
    assert_eq!(adoption.active.get("acme.review"), Some(&true));
    assert_eq!(adoption.by_source.get("github"), Some(&1));
}

#[test]
fn source_keys_are_always_present() {
    let adoption = run(vec![]);
    assert_eq!(adoption.by_source.get("builtin"), Some(&0));
    assert_eq!(adoption.by_source.get("github"), Some(&0));
    assert_eq!(adoption.by_source.get("path"), Some(&0));
    assert_eq!(
        adoption.by_source.keys(),
        vec!["builtin".to_string(), "github".to_string(), "path".to_string()]
    );
}

#[test]
fn featured_path_installs_stay_unnamed() {
    let adoption = run(vec![(
        "local.thing",
        PluginSource::Path { path: "/p".into() },
        true,
        true,
    )]);
    assert!(adoption.active.is_empty());
    assert_eq!(adoption.by_source.get("path"), Some(&1));
}

#[test]
fn slugs_paths_and_unlisted_ids_do_not_show() {
    let report = |id: &str, slug: &str, path: &str, active: bool| {
        let adoption = run(vec![
            ("aoe.web", PluginSource::Builtin, true, false),
            ("acme.review", PluginSource::GitHub { slug: slug.into() }, true, true),
            (id, PluginSource::GitHub { slug: slug.into() }, active, false),
            (id, PluginSource::Path { path: path.into() }, active, true),
        ]);
        format!("{adoption:?}")
    };
    assert_eq!(report("x.y", "a/b", "/one", true), report("z.w", "c/d", "/two", false));
}
