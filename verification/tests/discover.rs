use aoe::plugin::discover::discover;
use aoe::plugin::discover::mark;
use aoe::plugin::discover::GitHubSearchRepo;
use aoe::plugin::registry::PluginRegistry;

fn repo(full_name: &str, stars: u64, archived: bool) -> GitHubSearchRepo {
    GitHubSearchRepo {
        full_name: full_name.to_string(),
        description: Some(format!("{full_name} plugin")),
        stargazers_count: stars,
        archived,
    }
}

#[test]
fn featured_sort_first_then_stars_and_archived_dropped() {
    let repos = vec![
        repo("a/popular", 90, false),
        repo("b/curated", 5, false),
        repo("c/dead", 999, true),
        repo("d/small", 1, false),
    ];
    let found = mark(repos, |slug| (slug == "b/curated", slug == "d/small"));
    let slugs: Vec<&str> = found.iter().map(|p| p.slug.as_str()).collect();
    assert_eq!(slugs, ["b/curated", "a/popular", "d/small"]);
    assert!(found[0].featured);
    assert!(!found[1].featured);
    assert!(found[2].installed);
}

#[test]
fn equal_stars_are_ordered_by_slug() {
    let repos = vec![repo("z/z", 3, false), repo("a/b", 3, false), repo("a/a", 3, false)];
    let registry = PluginRegistry { plugins: vec![] };
    let found = discover(repos, &registry, &vec!["a/b".to_string()]);
    let slugs: Vec<&str> = found.iter().map(|p| p.slug.as_str()).collect();
    assert_eq!(slugs, ["a/b", "a/a", "z/z"]);
    assert_eq!(found[0].description.as_deref(), Some("a/b plugin"));
    assert!(found.iter().all(|p| !p.installed));
}

#[test]
fn arrival_order_and_archived_repos_do_not_show() {
    let list = |repos: Vec<GitHubSearchRepo>| -> Vec<String> {
        mark(repos, |slug| (slug == "b/b", false)).into_iter().map(|p| p.slug).collect()
    };
    let there = list(vec![repo("a/a", 3, false), repo("b/b", 1, false), repo("c/c", 3, false)]);
    let back = list(vec![repo("c/c", 3, false), repo("x/x", 9, true), repo("b/b", 1, false), repo("a/a", 3, false)]);
    assert_eq!(there, ["b/b", "a/a", "c/c"]);
    assert_eq!(there, back);
}
