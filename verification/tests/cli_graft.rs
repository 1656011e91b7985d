use aoe::json::parse_json;
use aoe::json::same_json;
use aoe::json::Json;
use aoe::name_map::NameMap;
use aoe::plugin::cli_graft::conflicts_with_grafted;
use aoe::plugin::cli_graft::core_owns_path;
use aoe::plugin::cli_graft::dispatch;
use aoe::plugin::cli_graft::graft_all;
use aoe::plugin::cli_graft::grafted_commands;
use aoe::plugin::cli_graft::shown_result;
use aoe::plugin::cli_graft::GraftedCommand;
use aoe::plugin::registry::LoadedPlugin;
use aoe::plugin::registry::PluginRegistry;
use aoe::plugin::registry::PluginSource;
use aoe::plugin_api::id::PluginId;
use aoe::plugin_api::manifest::CliArgContribution;
use aoe::plugin_api::manifest::CliCommandContribution;
use aoe::plugin_api::manifest::PluginManifest;
use clap::Command;

fn contribution(path: &[&str]) -> CliCommandContribution {
    CliCommandContribution {
        path: path.iter().map(|s| s.to_string()).collect(),
        about: "test".into(),
        args: vec![],
        rpc_method: "test.run".into(),
    }
}

fn grafted(path: &[&str]) -> GraftedCommand {
    GraftedCommand {
        plugin_id: "test-plugin".into(),
        contribution: contribution(path),
    }
}

fn paths(v: &[&[&str]]) -> Vec<Vec<String>> {
    v.iter()
        .map(|p| p.iter().map(|s| s.to_string()).collect())
        .collect()
}

#[test]
fn core_owns_full_paths_and_groups_but_not_free_leaves() {
    let root =
        Command::new("aoe").subcommand(Command::new("session").subcommand(Command::new("ls")));
    let owned = paths(&[&["session"], &["session", "ls"]]);
    for path in &owned {
        assert!(core_owns_path(&root, path), "core must own {path:?}");
    }
    let free = paths(&[&["review"], &["session", "archive"]]);
    for path in &free {
        assert!(!core_owns_path(&root, path), "{path:?} must be graftable");
    }
}

#[test]
fn grafted_prefix_overlaps_conflict_in_both_directions() {
    let existing = vec![grafted(&["review"]), grafted(&["repo", "sync"])];
    for path in paths(&[&["review"], &["review", "x"], &["repo"], &["repo", "sync"]]) {
        assert!(
            conflicts_with_grafted(&existing, &path),
            "{path:?} must conflict"
        );
    }
    assert!(!conflicts_with_grafted(&existing, &paths(&[&["repo2"]])[0]));
    assert!(!conflicts_with_grafted(
        &existing,
        &paths(&[&["repo", "status"]])[0]
    ));
}

#[test]
fn top_level_graft_parses_and_dispatch_path_matches() {
    let root = Command::new("aoe").subcommand(Command::new("list"));
    let commands = vec![grafted(&["review"])];
    let root = graft_all(root, &commands);
    let matches = root.try_get_matches_from(["aoe", "review"]).unwrap();
    let mut path = Vec::new();
    let mut cursor = &matches;
    while let Some((name, sub)) = cursor.subcommand() {
        path.push(name.to_string());
        cursor = sub;
    }
    assert_eq!(path, ["review"]);
}

#[test]
fn nested_graft_attaches_under_existing_group() {
    let root =
        Command::new("aoe").subcommand(Command::new("session").subcommand(Command::new("ls")));
    let commands = vec![grafted(&["session", "archive"])];
    let root = graft_all(root, &commands);
    let matches = root
        .try_get_matches_from(["aoe", "session", "archive"])
        .unwrap();
    let (name, sub) = matches.subcommand().unwrap();
    assert_eq!(name, "session");
    assert_eq!(sub.subcommand().unwrap().0, "archive");
}

#[test]
fn dispatch_ignores_core_paths() {
    let commands = vec![grafted(&["review"])];
    let root = Command::new("aoe")
        .subcommand(Command::new("list"))
        .subcommand(Command::new("review"));
    let matches = root.try_get_matches_from(["aoe", "list"]).unwrap();
    assert!(dispatch(&matches, &commands).is_none());
}

fn with_args(path: &[&str]) -> GraftedCommand {
    let mut command = grafted(path);
    command.contribution.about = "About it".into();
    command.contribution.args = vec![
        CliArgContribution { name: "session".into(), help: "Which one".into(), required: true },
        CliArgContribution { name: "note".into(), help: "Why".into(), required: false },
    ];
    command
}

#[test]
fn grafted_commands_carry_their_description_and_arguments() {
    let root = graft_all(Command::new("aoe"), &vec![with_args(&["repo", "sync"])]);
    let group = root.find_subcommand("repo").unwrap();
    assert!(group.get_about().is_none());
    let leaf = group.find_subcommand("sync").unwrap();
    assert_eq!(leaf.get_about().unwrap().to_string(), "About it");
    let args: Vec<(String, bool, String)> = leaf
        .get_arguments()
        .map(|a| (a.get_id().to_string(), a.is_required_set(), a.get_help().unwrap().to_string()))
        .collect();
    assert_eq!(
        args,
        [
            ("session".to_string(), true, "Which one".to_string()),
            ("note".to_string(), false, "Why".to_string())
        ]
    );
}

#[test]
fn grafting_under_a_group_moves_it_behind_the_others() {
    let root = Command::new("aoe")
        .subcommand(Command::new("session"))
        .subcommand(Command::new("list"));
    let root = graft_all(root, &vec![grafted(&["session", "archive"])]);
    let names: Vec<&str> = root.get_subcommands().map(|c| c.get_name()).collect();
    assert_eq!(names, ["list", "session"]);
}

#[test]
fn deep_paths_are_skipped() {
    let root = graft_all(Command::new("aoe"), &vec![grafted(&["a", "b", "c"])]);
    assert_eq!(root.get_subcommands().count(), 0);
}

#[test]
fn dispatch_builds_the_call() {
    let commands = vec![grafted(&["review"]), with_args(&["repo", "sync"])];
    let root = graft_all(Command::new("aoe"), &commands);
    let matches = root.try_get_matches_from(["aoe", "repo", "sync", "s1"]).unwrap();
    let call = dispatch(&matches, &commands).unwrap();
    assert_eq!(call.plugin_id, "test-plugin");
    assert_eq!(call.rpc_method, "test.run");
    assert!(same_json(
        &call.params,
        &parse_json("{\"args\":{\"session\":\"s1\"}}").unwrap()
    ));
}

#[test]
fn arguments_that_the_command_does_not_define_are_left_out() {
    let commands = vec![with_args(&["review"])];
    let root = Command::new("aoe").subcommand(Command::new("review"));
    let matches = root.try_get_matches_from(["aoe", "review"]).unwrap();
    let call = dispatch(&matches, &commands).unwrap();
    assert!(same_json(&call.params, &parse_json("{\"args\":{}}").unwrap()));
}

fn plugin(id: &str, enabled: bool, commands: Vec<CliCommandContribution>) -> LoadedPlugin {
    LoadedPlugin {
        manifest: PluginManifest {
            id: PluginId::new(id).unwrap(),
            capabilities: vec![],
            settings: vec![],
            setting_defaults: vec![],
            commands,
            ui: vec![],
            runtime: None,
        },
        root: None,
        source: PluginSource::Builtin,
        enabled,
        granted: true,
        settings: NameMap::new(),
    }
}

#[test]
fn taken_paths_are_not_grafted() {
    let root =
        Command::new("aoe").subcommand(Command::new("session").subcommand(Command::new("ls")));
    let registry = PluginRegistry {
        plugins: vec![
            plugin(
                "a.one",
                true,
                vec![
                    contribution(&["plugin", "x"]),
                    contribution(&["session", "ls"]),
                    contribution(&["session", "archive"]),
                    contribution(&["review"]),
                ],
            ),
            plugin("b.off", false, vec![contribution(&["free"])]),
            plugin("c.two", true, vec![contribution(&["review", "deep"]), contribution(&["free"])]),
        ],
    };
    let found: Vec<(String, Vec<String>)> = grafted_commands(&root, &registry)
        .into_iter()
        .map(|g| (g.plugin_id, g.contribution.path))
        .collect();
    assert_eq!(
        found,
        [
            ("a.one".to_string(), vec!["session".to_string(), "archive".to_string()]),
            ("a.one".to_string(), vec!["review".to_string()]),
            ("c.two".to_string(), vec!["free".to_string()]),
        ]
    );
}

#[test]
fn results_are_shown_plainly() {
    assert_eq!(shown_result(&Json::text("done")).as_deref(), Some("done"));
    assert_eq!(shown_result(&Json::Null), None);
    assert_eq!(shown_result(&parse_json("{ \"a\": [1] }").unwrap()).as_deref(), Some("{\"a\":[1]}"));
}
