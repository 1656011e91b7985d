//! Opt-in plugin discovery via GitHub topic search.
//!
//! Discovery only runs on an explicit user action; nothing scans the network
//! in the background. Results are repositories tagged with the `aoe-plugin`
//! topic, sorted curated-first: anything not in the featured index is
//! unvetted community code and every surface labels it as such before the
//! install flow's capability prompt runs. The search itself is the caller's;
//! this module marks and orders what it found.

use vstd::prelude::*;

use crate::lists;
use crate::plugin::registry::LoadedPlugin;
use crate::plugin::registry::PluginRegistry;
use crate::plugin::registry::PluginSource;
use crate::sorting;
use crate::sorting::stable_sort;
use crate::sorting::Ranked;
use crate::sorting::SortKey;
use crate::text;
use crate::text::contains_text;
use crate::text::text_less;

verus! {

/// The GitHub topic that marks a repository as an AoE plugin.
pub const PLUGIN_TOPIC: &'static str = "aoe-plugin";

/// How many repositories one search asks for.
pub const SEARCH_PAGE_SIZE: u8 = 50;

/// One repository that a search found.
#[derive(Debug)]
pub struct GitHubSearchRepo {
    /// `owner/repo`.
    pub full_name: String,
    pub description: Option<String>,
    pub stargazers_count: u64,
    pub archived: bool,
}

/// What contracts say of a repository.
pub struct RepoModel {
    pub full_name: Seq<char>,
    pub description: Option<Seq<char>>,
    pub stars: u64,
    pub archived: bool,
}

impl View for GitHubSearchRepo {
    type V = RepoModel;

    open spec fn view(&self) -> RepoModel {
        RepoModel {
            full_name: self.full_name@,
            description: text::optional_text(self.description),
            stars: self.stargazers_count,
            archived: self.archived,
        }
    }
}

/// The models of a list of repositories.
pub open spec fn repo_models(repos: Seq<GitHubSearchRepo>) -> Seq<RepoModel> {
    repos.map_values(|r: GitHubSearchRepo| r@)
}

/// One discoverable plugin repository, ready for any surface to render.
#[derive(Debug, Clone)]
pub struct DiscoveredPlugin {
    /// `owner/repo`, the exact string the install flow accepts.
    pub slug: String,
    pub description: Option<String>,
    pub stars: u64,
    /// In the curated featured index (install validates its tree hash).
    pub featured: bool,
    /// A plugin from this slug is already installed.
    pub installed: bool,
}

/// What contracts say of a discovered plugin.
pub struct DiscoveredModel {
    pub slug: Seq<char>,
    pub description: Option<Seq<char>>,
    pub stars: u64,
    pub featured: bool,
    pub installed: bool,
}

impl Ranked for DiscoveredPlugin {
    type Model = DiscoveredModel;

    open spec fn model(&self) -> DiscoveredModel {
        DiscoveredModel {
            slug: self.slug@,
            description: text::optional_text(self.description),
            stars: self.stars,
            featured: self.featured,
            installed: self.installed,
        }
    }

    /// Featured first, then stars descending, then slug.
    open spec fn key_of(model: DiscoveredModel) -> SortKey {
        SortKey {
            first: if model.featured {
                0
            } else {
                1
            },
            second: -(model.stars as int),
            name: model.slug,
            detail: seq![],
        }
    }

    fn before(&self, other: &Self) -> (r: bool) {
        proof {
            text::text_lt_irreflexive(seq![]);
        }
        if self.featured != other.featured {
            return self.featured;
        }
        if self.stars != other.stars {
            return self.stars > other.stars;
        }
        text_less(self.slug.as_str(), other.slug.as_str())
    }
}

/// Whether a repository is not archived.
pub open spec fn is_kept() -> spec_fn(RepoModel) -> bool {
    |repo: RepoModel| !repo.archived
}

/// The repositories that are not archived.
pub open spec fn kept_repos(repos: Seq<RepoModel>) -> Seq<RepoModel> {
    repos.filter(is_kept())
}

/// A repository, marked with whether it is featured and installed.
pub open spec fn marked(repo: RepoModel, state: (bool, bool)) -> DiscoveredModel {
    DiscoveredModel {
        slug: repo.full_name,
        description: repo.description,
        stars: repo.stars,
        featured: state.0,
        installed: state.1,
    }
}

/// Repositories, each marked with its state.
pub open spec fn all_marked(
    repos: Seq<RepoModel>,
    states: Seq<(bool, bool)>,
) -> Seq<DiscoveredModel> {
    Seq::new(repos.len(), |i: int| marked(repos[i], states[i]))
}

/// Whether a function may give this state for a slug.
pub open spec fn gives_state<F: Fn(&str) -> (bool, bool)>(
    state_for: F,
    slug: Seq<char>,
    state: (bool, bool),
) -> bool {
    exists|s: &str| s@ == slug && #[trigger] call_ensures(state_for, (s,), state)
}

/// Whether a list is what comes of repositories by states that a function may
/// give for their slugs.
pub open spec fn comes_of<F: Fn(&str) -> (bool, bool)>(
    out: Seq<DiscoveredModel>,
    kept: Seq<RepoModel>,
    state_for: F,
    states: Seq<(bool, bool)>,
) -> bool {
    &&& states.len() == kept.len()
    &&& forall|i: int|
        0 <= i < kept.len() ==> gives_state(state_for, kept[i].full_name, #[trigger] states[i])
    &&& out == sorting::stable_sorted::<DiscoveredPlugin>(all_marked(kept, states))
}

/// Pure marking and ordering: featured first, then stars, then slug for a
/// stable tie-break. Archived repositories are dropped; an archived plugin
/// is not something to point new installs at.
pub fn mark<F: Fn(&str) -> (bool, bool)>(repos: Vec<GitHubSearchRepo>, state_for: F) -> (r: Vec<
    DiscoveredPlugin,
>)
    requires
        forall|s: &str| call_requires(state_for, (s,)),
    ensures
        exists|states: Seq<(bool, bool)>| #[trigger]
            comes_of(sorting::models(r@), kept_repos(repo_models(repos@)), state_for, states),
{
    let ghost rows = repos@;
    let ghost all = repo_models(rows);
    let ghost mut states: Seq<(bool, bool)> = seq![];
    let mut found: Vec<DiscoveredPlugin> = Vec::new();
    proof {
        reveal(Seq::filter);
        assert(sorting::models(found@) =~= all_marked(kept_repos(all.take(0)), states));
    }
    for repo in it: repos
        invariant
            forall|s: &str| call_requires(state_for, (s,)),
            it.seq() == rows,
            all == repo_models(rows),
            states.len() == kept_repos(all.take(it.index())).len(),
            forall|i: int|
                0 <= i < states.len() ==> gives_state(
                    state_for,
                    kept_repos(all.take(it.index()))[i].full_name,
                    #[trigger] states[i],
                ),
            sorting::models(found@) == all_marked(kept_repos(all.take(it.index())), states),
    {
        let ghost before = kept_repos(all.take(it.index()));
        proof {
            lists::filter_grows(all, it.index(), is_kept());
        }
        let ghost model = repo@;
        assert(all[it.index()] == model);
        if !repo.archived {
            let (featured, installed) = state_for(repo.full_name.as_str());
            let ghost head = sorting::models(found@);
            let row = DiscoveredPlugin {
                slug: repo.full_name,
                description: repo.description,
                stars: repo.stargazers_count,
                featured,
                installed,
            };
            let ghost row_model = row.model();
            found.push(row);
            proof {
                assert(gives_state(state_for, model.full_name, (featured, installed)));
                let old_states = states;
                states = states.push((featured, installed));
                let after = before.push(model);
                assert forall|i: int| 0 <= i < states.len() implies gives_state(
                    state_for,
                    after[i].full_name,
                    #[trigger] states[i],
                ) by {
                    if i < old_states.len() {
                        assert(states[i] == old_states[i]);
                    }
                }
                assert(sorting::models(found@) =~= head.push(row_model));
                assert(all_marked(after, states) =~= all_marked(before, old_states).push(
                    marked(model, (featured, installed)),
                ));
            }
        }
    }
    assert(all.take(all.len() as int) =~= all);
    let out = stable_sort(found);
    assert(comes_of(sorting::models(out@), kept_repos(all), state_for, states));
    out
}

/// The slugs of the plugins that came from GitHub, active or not.
pub open spec fn installed_slugs(plugins: Seq<LoadedPlugin>) -> Seq<Seq<char>>
    decreases plugins.len(),
{
    if plugins.len() == 0 {
        seq![]
    } else {
        let head = installed_slugs(plugins.drop_last());
        match plugins.last().source {
            PluginSource::GitHub { slug } => head.push(slug@),
            _ => head,
        }
    }
}

fn slugs_of(registry: &PluginRegistry) -> (r: Vec<String>)
    ensures
        text::texts(r@) == installed_slugs(registry.plugins@),
{
    let plugins = &registry.plugins;
    let mut out: Vec<String> = Vec::new();
    let mut i: usize = 0;
    assert(text::texts(out@) =~= installed_slugs(plugins@.take(0)));
    while i < plugins.len()
        invariant
            i <= plugins.len(),
            text::texts(out@) == installed_slugs(plugins@.take(i as int)),
        decreases plugins.len() - i,
    {
        assert(plugins@.take(i + 1).drop_last() =~= plugins@.take(i as int));
        if let PluginSource::GitHub { slug } = &plugins[i].source {
            let ghost before = text::texts(out@);
            out.push(slug.clone());
            assert(text::texts(out@) =~= before.push(slug@));
        }
        i += 1;
    }
    assert(plugins@.take(i as int) =~= plugins@);
    out
}

/// The state of a slug: whether it is featured, and whether it is installed.
pub open spec fn known_state(
    slug: Seq<char>,
    featured: Seq<Seq<char>>,
    installed: Seq<Seq<char>>,
) -> (bool, bool) {
    (featured.contains(slug), installed.contains(slug))
}

/// The repositories that are not archived, marked, in the order in which they
/// are shown.
pub open spec fn discovered(
    repos: Seq<RepoModel>,
    featured: Seq<Seq<char>>,
    installed: Seq<Seq<char>>,
) -> Seq<DiscoveredModel> {
    sorting::stable_sorted::<DiscoveredPlugin>(
        kept_repos(repos).map_values(
            |repo: RepoModel| marked(repo, known_state(repo.full_name, featured, installed)),
        ),
    )
}

/// Mark what a search found against the featured index and the local install
/// state.
pub fn discover(
    repos: Vec<GitHubSearchRepo>,
    registry: &PluginRegistry,
    featured: &Vec<String>,
) -> (r: Vec<DiscoveredPlugin>)
    ensures
        sorting::models(r@) == discovered(
            repo_models(repos@),
            text::texts(featured@),
            installed_slugs(registry.plugins@),
        ),
{
    let installed = slugs_of(registry);
    let ghost kept = kept_repos(repo_models(repos@));
    let state_for = |slug: &str| -> (out: (bool, bool))
        ensures
            out == known_state(slug@, text::texts(featured@), text::texts(installed@)),
        { (contains_text(featured, slug), contains_text(&installed, slug)) };
    let found = mark(repos, state_for);
    proof {
        let states = choose|states: Seq<(bool, bool)>| #[trigger]
            comes_of(sorting::models(found@), kept, state_for, states);
        let direct = kept.map_values(
            |repo: RepoModel|
                marked(
                    repo,
                    known_state(repo.full_name, text::texts(featured@), text::texts(installed@)),
                ),
        );
        assert forall|i: int| 0 <= i < kept.len() implies all_marked(kept, states)[i]
            == direct[i] by {
            assert(gives_state(state_for, kept[i].full_name, states[i]));
        }
        assert(all_marked(kept, states) =~= direct);
    }
    found
}

/// Curated plugins come before all others, and within each of the two groups
/// more stars come first.
pub proof fn featured_come_first(
    repos: Seq<RepoModel>,
    featured: Seq<Seq<char>>,
    installed: Seq<Seq<char>>,
    i: int,
    j: int,
)
    requires
        0 <= i < j < discovered(repos, featured, installed).len(),
    ensures
        ({
            let a = discovered(repos, featured, installed)[i];
            let b = discovered(repos, featured, installed)[j];
            (b.featured ==> a.featured) && (a.featured == b.featured ==> a.stars >= b.stars)
        }),
{
    let rows = kept_repos(repos).map_values(
        |repo: RepoModel| marked(repo, known_state(repo.full_name, featured, installed)),
    );
    sorting::sorting_orders_rows::<DiscoveredPlugin>(rows);
    let shown = discovered(repos, featured, installed);
    assert(!sorting::key_lt(
        <DiscoveredPlugin as Ranked>::key_of(shown[j]),
        <DiscoveredPlugin as Ranked>::key_of(shown[i]),
    ));
}

/// What is shown is what the search found and is not archived, each
/// repository once, and its mark says whether it is featured and installed.
pub proof fn discovery_shows_live_repos(
    repos: Seq<RepoModel>,
    featured: Seq<Seq<char>>,
    installed: Seq<Seq<char>>,
    shown: DiscoveredModel,
)
    ensures
        discovered(repos, featured, installed).len() == kept_repos(repos).len(),
        discovered(repos, featured, installed).contains(shown) <==> exists|i: int|
            0 <= i < repos.len() && !(#[trigger] repos[i]).archived && shown == marked(
                repos[i],
                known_state(repos[i].full_name, featured, installed),
            ),
{
    broadcast use vstd::seq_lib::group_to_multiset_ensures;

    let kept = kept_repos(repos);
    let rows = kept.map_values(
        |repo: RepoModel| marked(repo, known_state(repo.full_name, featured, installed)),
    );
    sorting::sorting_keeps_rows::<DiscoveredPlugin>(rows);
    let out = discovered(repos, featured, installed);
    assert(out.contains(shown) <==> out.to_multiset().count(shown) > 0);
    assert(rows.contains(shown) <==> rows.to_multiset().count(shown) > 0);
    lists::filter_members(repos, is_kept());
    if rows.contains(shown) {
        let k = choose|k: int| 0 <= k < rows.len() && rows[k] == shown;
        repos.lemma_filter_pred(is_kept(), k);
        assert(repos.contains(kept[k]));
        let i = choose|i: int| 0 <= i < repos.len() && repos[i] == kept[k];
        assert(!repos[i].archived);
    }
    if exists|i: int|
        0 <= i < repos.len() && !(#[trigger] repos[i]).archived && shown == marked(
            repos[i],
            known_state(repos[i].full_name, featured, installed),
        ) {
        let i = choose|i: int|
            0 <= i < repos.len() && !(#[trigger] repos[i]).archived && shown == marked(
                repos[i],
                known_state(repos[i].full_name, featured, installed),
            );
        repos.lemma_filter_contains(is_kept(), i);
        let k = choose|k: int| 0 <= k < kept.len() && kept[k] == repos[i];
        assert(rows[k] == shown);
    }
}

/// No two repositories share a name.
pub open spec fn distinct_names(repos: Seq<RepoModel>) -> bool {
    forall|i: int, j: int|
        0 <= i < j < repos.len() ==> (#[trigger] repos[i]).full_name != (
        #[trigger] repos[j]).full_name
}

/// A function gives one state per slug.
pub open spec fn is_deterministic<F: Fn(&str) -> (bool, bool)>(state_for: F) -> bool {
    forall|slug: Seq<char>, a: (bool, bool), b: (bool, bool)| #[trigger]
        gives_state(state_for, slug, a) && #[trigger] gives_state(state_for, slug, b) ==> a == b
}

proof fn mapping_keeps_multisets<A, B>(s: Seq<A>, t: Seq<A>, f: spec_fn(A) -> B)
    requires
        s.to_multiset() == t.to_multiset(),
    ensures
        s.map_values(f).to_multiset() == t.map_values(f).to_multiset(),
    decreases s.len(),
{
    broadcast use vstd::seq_lib::group_to_multiset_ensures;

    assert(s.len() == s.to_multiset().len() && t.len() == t.to_multiset().len());
    if s.len() > 0 {
        let x = s.last();
        assert(s.contains(x));
        assert(t.to_multiset().count(x) > 0);
        let k = choose|k: int| 0 <= k < t.len() && t[k] == x;
        let s0 = s.drop_last();
        let t0 = t.remove(k);
        assert(s.remove(s.len() - 1) =~= s0);
        mapping_keeps_multisets(s0, t0, f);
        let fs = s.map_values(f);
        let ft = t.map_values(f);
        assert(fs.remove(fs.len() - 1) =~= s0.map_values(f));
        assert(ft.remove(k) =~= t0.map_values(f));
        assert(fs =~= s0.map_values(f).push(f(x)));
        assert(ft =~= t0.map_values(f).insert(k, f(x)));
    } else {
        assert(s =~= t);
    }
}

proof fn filter_counts<A>(s: Seq<A>, keep: spec_fn(A) -> bool, x: A)
    ensures
        s.filter(keep).to_multiset().count(x) == (if keep(x) {
            s.to_multiset().count(x)
        } else {
            0
        }),
    decreases s.len(),
{
    broadcast use vstd::seq_lib::group_to_multiset_ensures;

    reveal(Seq::filter);
    if s.len() > 0 {
        let head = s.drop_last();
        filter_counts(head, keep, x);
        assert(head.push(s.last()) =~= s);
    }
}

proof fn lists_agree<F: Fn(&str) -> (bool, bool)>(
    state_for: F,
    kept: Seq<RepoModel>,
    states: Seq<(bool, bool)>,
    shown: Seq<DiscoveredModel>,
    other: Seq<RepoModel>,
    other_states: Seq<(bool, bool)>,
    other_shown: Seq<DiscoveredModel>,
)
    requires
        is_deterministic(state_for),
        distinct_names(kept),
        kept.to_multiset() == other.to_multiset(),
        comes_of(shown, kept, state_for, states),
        comes_of(other_shown, other, state_for, other_states),
    ensures
        shown == other_shown,
{
    broadcast use vstd::seq_lib::group_to_multiset_ensures;

    let f = |repo: RepoModel|
        marked(repo, choose|state: (bool, bool)| gives_state(state_for, repo.full_name, state));
    assert forall|i: int| 0 <= i < kept.len() implies all_marked(kept, states)[i] == f(
        kept[i],
    ) by {
        assert(gives_state(state_for, kept[i].full_name, states[i]));
    }
    assert(all_marked(kept, states) =~= kept.map_values(f));
    assert forall|i: int| 0 <= i < other.len() implies all_marked(other, other_states)[i] == f(
        other[i],
    ) by {
        assert(gives_state(state_for, other[i].full_name, other_states[i]));
    }
    assert(all_marked(other, other_states) =~= other.map_values(f));
    mapping_keeps_multisets(kept, other, f);
    let rows = kept.map_values(f);
    assert forall|a: DiscoveredModel, b: DiscoveredModel|
        rows.contains(a) && rows.contains(b) && #[trigger] <DiscoveredPlugin as Ranked>::key_of(a)
            == #[trigger] <DiscoveredPlugin as Ranked>::key_of(b) implies a == b by {
        let i = choose|i: int| 0 <= i < rows.len() && rows[i] == a;
        let j = choose|j: int| 0 <= j < rows.len() && rows[j] == b;
        assert(kept[i].full_name == a.slug && kept[j].full_name == b.slug);
        if i < j {
            assert(kept[i].full_name != kept[j].full_name);
        } else if j < i {
            assert(kept[j].full_name != kept[i].full_name);
        }
    }
    sorting::sorting_ignores_arrival::<DiscoveredPlugin>(rows, other.map_values(f));
}

/// The order in which a search returns repositories does not show: ties on
/// featured and stars are broken by slug.
pub proof fn marking_ignores_arrival<F: Fn(&str) -> (bool, bool)>(
    state_for: F,
    repos: Seq<RepoModel>,
    states: Seq<(bool, bool)>,
    shown: Seq<DiscoveredModel>,
    permuted: Seq<RepoModel>,
    permuted_states: Seq<(bool, bool)>,
    permuted_shown: Seq<DiscoveredModel>,
)
    requires
        is_deterministic(state_for),
        distinct_names(kept_repos(repos)),
        repos.to_multiset() == permuted.to_multiset(),
        comes_of(shown, kept_repos(repos), state_for, states),
        comes_of(permuted_shown, kept_repos(permuted), state_for, permuted_states),
    ensures
        shown == permuted_shown,
{
    let kept = kept_repos(repos);
    let other = kept_repos(permuted);
    assert(kept.to_multiset() =~= other.to_multiset()) by {
        assert forall|x: RepoModel| #[trigger] kept.to_multiset().count(x)
            == other.to_multiset().count(x) by {
            filter_counts(repos, is_kept(), x);
            filter_counts(permuted, is_kept(), x);
        }
    }
    lists_agree(state_for, kept, states, shown, other, permuted_states, permuted_shown);
}

/// Archived repositories do not show: two searches that found the same live
/// repositories are listed alike, whatever archived ones were among them.
pub proof fn marking_ignores_archived<F: Fn(&str) -> (bool, bool)>(
    state_for: F,
    repos: Seq<RepoModel>,
    states: Seq<(bool, bool)>,
    shown: Seq<DiscoveredModel>,
    other: Seq<RepoModel>,
    other_states: Seq<(bool, bool)>,
    other_shown: Seq<DiscoveredModel>,
)
    requires
        is_deterministic(state_for),
        kept_repos(repos) == kept_repos(other),
        comes_of(shown, kept_repos(repos), state_for, states),
        comes_of(other_shown, kept_repos(other), state_for, other_states),
    ensures
        shown == other_shown,
{
    let kept = kept_repos(repos);
    assert forall|i: int| 0 <= i < kept.len() implies states[i] == other_states[i] by {
        assert(gives_state(state_for, kept[i].full_name, states[i]));
        assert(gives_state(state_for, kept[i].full_name, other_states[i]));
    }
    assert(states =~= other_states);
}

/// One more archived repository, anywhere in what a search found, leaves the
/// live ones as they are.
pub proof fn archived_repos_are_not_kept(repos: Seq<RepoModel>, at: int, repo: RepoModel)
    requires
        0 <= at <= repos.len(),
        repo.archived,
    ensures
        kept_repos(repos.insert(at, repo)) == kept_repos(repos),
    decreases repos.len(),
{
    reveal(Seq::filter);
    let more = repos.insert(at, repo);
    if at == repos.len() {
        assert(more.drop_last() =~= repos);
    } else {
        assert(more.drop_last() =~= repos.drop_last().insert(at, repo));
        archived_repos_are_not_kept(repos.drop_last(), at, repo);
    }
}

/// Every repository that was found and is not archived is shown once, under its
/// name, with its description and its stars, as featured where the index names
/// it and as installed where a plugin came from it; no other is shown.
pub proof fn discovery_is_complete(
    repos: Seq<RepoModel>,
    featured: Seq<Seq<char>>,
    installed: Seq<Seq<char>>,
    i: int,
    shown: DiscoveredModel,
)
    ensures
        0 <= i < repos.len() && !repos[i].archived ==> discovered(
            repos,
            featured,
            installed,
        ).contains(
            (DiscoveredModel {
                slug: repos[i].full_name,
                description: repos[i].description,
                stars: repos[i].stars,
                featured: featured.contains(repos[i].full_name),
                installed: installed.contains(repos[i].full_name),
            }),
        ),
        discovered(repos, featured, installed).contains(shown) ==> exists|k: int|
            0 <= k < repos.len() && !(#[trigger] repos[k]).archived && shown.slug
                == repos[k].full_name && shown.description == repos[k].description && shown.stars
                == repos[k].stars && shown.featured == featured.contains(shown.slug)
                && shown.installed == installed.contains(shown.slug),
{
    discovery_shows_live_repos(repos, featured, installed, shown);
    if 0 <= i < repos.len() && !repos[i].archived {
        let own = DiscoveredModel {
            slug: repos[i].full_name,
            description: repos[i].description,
            stars: repos[i].stars,
            featured: featured.contains(repos[i].full_name),
            installed: installed.contains(repos[i].full_name),
        };
        discovery_shows_live_repos(repos, featured, installed, own);
        assert(own == marked(repos[i], known_state(repos[i].full_name, featured, installed)));
    }
    if discovered(repos, featured, installed).contains(shown) {
        let k = choose|k: int|
            0 <= k < repos.len() && !(#[trigger] repos[k]).archived && shown == marked(
                repos[k],
                known_state(repos[k].full_name, featured, installed),
            );
        assert(!repos[k].archived);
    }
}

/// One more repository shows as one more entry, unless it is archived.
pub proof fn each_live_repo_shows_once(
    repos: Seq<RepoModel>,
    repo: RepoModel,
    featured: Seq<Seq<char>>,
    installed: Seq<Seq<char>>,
)
    ensures
        discovered(Seq::empty(), featured, installed).len() == 0,
        repo.archived ==> discovered(repos.push(repo), featured, installed).len() == discovered(
            repos,
            featured,
            installed,
        ).len(),
        !repo.archived ==> discovered(repos.push(repo), featured, installed).len() == discovered(
            repos,
            featured,
            installed,
        ).len() + 1,
{
    reveal(Seq::filter);
    let any = marked(repo, (true, true));
    discovery_shows_live_repos(Seq::empty(), featured, installed, any);
    discovery_shows_live_repos(repos, featured, installed, any);
    discovery_shows_live_repos(repos.push(repo), featured, installed, any);
    assert(repos.push(repo).drop_last() =~= repos);
}

/// Of two repositories that are both featured or both not, and that have as
/// many stars, the one comes first whose name does.
pub proof fn ties_are_broken_by_name(
    repos: Seq<RepoModel>,
    featured: Seq<Seq<char>>,
    installed: Seq<Seq<char>>,
    i: int,
    j: int,
)
    requires
        0 <= i < j < discovered(repos, featured, installed).len(),
    ensures
        ({
            let a = discovered(repos, featured, installed)[i];
            let b = discovered(repos, featured, installed)[j];
            ||| a.featured && !b.featured
            ||| a.featured == b.featured && a.stars > b.stars
            ||| a.featured == b.featured && a.stars == b.stars && !text::text_lt(b.slug, a.slug)
        }),
{
    let rows = kept_repos(repos).map_values(
        |repo: RepoModel| marked(repo, known_state(repo.full_name, featured, installed)),
    );
    sorting::sorting_orders_rows::<DiscoveredPlugin>(rows);
    let shown = discovered(repos, featured, installed);
    assert(!sorting::key_lt(
        <DiscoveredPlugin as Ranked>::key_of(shown[j]),
        <DiscoveredPlugin as Ranked>::key_of(shown[i]),
    ));
}

/// Whatever the marking function says of the repositories, the list holds each
/// live one with its description, its stars and a mark that the function may
/// give for its name.
pub proof fn marks_are_what_was_said<F: Fn(&str) -> (bool, bool)>(
    state_for: F,
    repos: Seq<RepoModel>,
    states: Seq<(bool, bool)>,
    shown: Seq<DiscoveredModel>,
    row: DiscoveredModel,
    i: int,
    j: int,
)
    requires
        comes_of(shown, kept_repos(repos), state_for, states),
    ensures
        shown.contains(row) ==> gives_state(state_for, row.slug, (row.featured, row.installed))
            && exists|k: int|
            0 <= k < repos.len() && !(#[trigger] repos[k]).archived && row.slug
                == repos[k].full_name && row.description == repos[k].description && row.stars
                == repos[k].stars,
        forall|k: int|
            0 <= k < repos.len() && !(#[trigger] repos[k]).archived ==> exists|n: int|
                0 <= n < shown.len() && (#[trigger] shown[n]).slug == repos[k].full_name
                    && shown[n].description == repos[k].description && shown[n].stars
                    == repos[k].stars,
        0 <= i < j < shown.len() ==> ({
            let a = shown[i];
            let b = shown[j];
            ||| a.featured && !b.featured
            ||| a.featured == b.featured && a.stars > b.stars
            ||| a.featured == b.featured && a.stars == b.stars && !text::text_lt(b.slug, a.slug)
        }),
{
    broadcast use vstd::seq_lib::group_to_multiset_ensures;

    let kept = kept_repos(repos);
    let rows = all_marked(kept, states);
    sorting::sorting_keeps_rows::<DiscoveredPlugin>(rows);
    sorting::sorting_orders_rows::<DiscoveredPlugin>(rows);
    lists::filter_members(repos, is_kept());
    if shown.contains(row) {
        assert(shown.to_multiset().count(row) > 0);
        assert(rows.to_multiset().count(row) > 0);
        assert(rows.contains(row));
        let n = choose|n: int| 0 <= n < rows.len() && rows[n] == row;
        assert(gives_state(state_for, kept[n].full_name, states[n]));
        repos.lemma_filter_pred(is_kept(), n);
        assert(repos.contains(kept[n]));
        let k = choose|k: int| 0 <= k < repos.len() && repos[k] == kept[n];
        assert(!repos[k].archived);
    }
    assert forall|k: int| 0 <= k < repos.len() && !(#[trigger] repos[k]).archived implies exists|
        n: int,
    |
        0 <= n < shown.len() && (#[trigger] shown[n]).slug == repos[k].full_name
            && shown[n].description == repos[k].description && shown[n].stars
            == repos[k].stars by {
        repos.lemma_filter_contains(is_kept(), k);
        let m = choose|m: int| 0 <= m < kept.len() && kept[m] == repos[k];
        let own = rows[m];
        assert(rows.contains(own));
        assert(rows.to_multiset().count(own) > 0);
        assert(shown.to_multiset().count(own) > 0);
        assert(shown.contains(own));
        let n = choose|n: int| 0 <= n < shown.len() && shown[n] == own;
        assert(shown[n].slug == repos[k].full_name);
    }
    if 0 <= i < j < shown.len() {
        assert(!sorting::key_lt(
            <DiscoveredPlugin as Ranked>::key_of(shown[j]),
            <DiscoveredPlugin as Ranked>::key_of(shown[i]),
        ));
    }
}

/// The installed slugs are those of the plugins that came from GitHub, active
/// or not, in their order.
pub proof fn installed_slugs_come_from_github(
    a: Seq<LoadedPlugin>,
    b: Seq<LoadedPlugin>,
    plugin: LoadedPlugin,
)
    ensures
        installed_slugs(a + b) == installed_slugs(a) + installed_slugs(b),
        plugin.source matches PluginSource::GitHub { slug } ==> installed_slugs(seq![plugin])
            == seq![slug@],
        !(plugin.source is GitHub) ==> installed_slugs(seq![plugin]).len() == 0,
    decreases b.len(),
{
    reveal_with_fuel(installed_slugs, 2);
    assert(seq![plugin].drop_last() =~= Seq::<LoadedPlugin>::empty());
    if plugin.source is GitHub {
        assert(installed_slugs(seq![plugin]) =~= seq![plugin.source->slug@]);
    }
    if b.len() == 0 {
        assert(a + b =~= a);
        assert(installed_slugs(a) + installed_slugs(b) =~= installed_slugs(a));
    } else {
        assert((a + b).drop_last() =~= a + b.drop_last());
        installed_slugs_come_from_github(a, b.drop_last(), plugin);
        assert(installed_slugs(a + b) =~= installed_slugs(a) + installed_slugs(b));
    }
}

/// What contracts say of found repositories and of what is shown of them are all
/// their parts, in order.
pub proof fn repo_models_are_faithful(
    repos: Seq<GitHubSearchRepo>,
    i: int,
    shown: DiscoveredPlugin,
    said: String,
)
    ensures
        repo_models(repos).len() == repos.len(),
        0 <= i < repos.len() ==> ({
            let repo = repo_models(repos)[i];
            &&& repo.full_name == repos[i].full_name@
            &&& repo.stars == repos[i].stargazers_count
            &&& repo.archived == repos[i].archived
            &&& repos[i].description is None <==> repo.description is None
            &&& repos[i].description == Some(said) ==> repo.description == Some(said@)
        }),
        ({
            let model = shown.model();
            &&& model.slug == shown.slug@
            &&& model.stars == shown.stars
            &&& model.featured == shown.featured
            &&& model.installed == shown.installed
            &&& shown.description is None <==> model.description is None
            &&& shown.description == Some(said) ==> model.description == Some(said@)
        }),
{
}

/// Repositories are kept one by one: one more stays last, unless it is archived.
pub proof fn live_repos_are_kept_in_order(repos: Seq<RepoModel>, repo: RepoModel)
    ensures
        kept_repos(repos.push(repo)) == (if repo.archived {
            kept_repos(repos)
        } else {
            kept_repos(repos).push(repo)
        }),
        kept_repos(Seq::empty()).len() == 0,
{
    reveal(Seq::filter);
    assert(repos.push(repo).drop_last() =~= repos);
}

} // verus!
