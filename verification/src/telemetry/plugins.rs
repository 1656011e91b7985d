//! Plugin adoption signal: which plugins this install runs.
//!
//! Plugin identity reaches the wire only for a closed, publicly known set,
//! the builtin plugins compiled into this binary plus the curated featured
//! index. Any other install (an unfeatured GitHub repository, which may be
//! private, or a local directory) is counted in the coarse per-source census
//! and never identified; no slug, path, or free-form id ever leaves the
//! machine.

use vstd::prelude::*;

use crate::name_map::NameMap;
use crate::plugin::registry;
use crate::plugin::registry::LoadedPlugin;
use crate::plugin::registry::PluginRegistry;
use crate::plugin::registry::PluginSource;
use crate::text;
use crate::text::contains_text;

verus! {

/// The two shallow maps the usage snapshot carries.
#[derive(Debug)]
pub struct PluginAdoption {
    /// Closed source key (`builtin` / `github` / `path`) -> installed
    /// plugin count. All three keys are always present (pre-seeded to 0)
    /// so the wire key set is stable.
    pub by_source: NameMap<u32>,
    /// Allowlisted plugin id -> whether it is active (enabled AND its
    /// capability grant matches the current manifest). Builtin ids are
    /// always present; featured ids appear only while installed.
    pub active: NameMap<bool>,
}

/// What contracts say of an installed plugin: its id, the key of its source,
/// whether it is active and whether its id is in the featured index.
pub struct EntryModel {
    pub id: Seq<char>,
    pub source: SourceKey,
    pub active: bool,
    pub featured: bool,
}

/// The kinds of sources.
#[derive(Debug, Clone, Copy, PartialEq, Eq, Structural)]
pub enum SourceKey {
    Builtin,
    GitHub,
    Path,
}

/// The kind of a source.
pub open spec fn source_key(source: PluginSource) -> SourceKey {
    match source {
        PluginSource::Builtin => SourceKey::Builtin,
        PluginSource::GitHub { .. } => SourceKey::GitHub,
        PluginSource::Path { .. } => SourceKey::Path,
    }
}

/// The model of an entry.
pub open spec fn entry_model(entry: (String, PluginSource, bool, bool)) -> EntryModel {
    EntryModel {
        id: entry.0@,
        source: source_key(entry.1),
        active: entry.2,
        featured: entry.3,
    }
}

/// The models of a list of entries.
pub open spec fn entry_models(entries: Seq<(String, PluginSource, bool, bool)>) -> Seq<EntryModel> {
    entries.map_values(|e: (String, PluginSource, bool, bool)| entry_model(e))
}

/// How many plugins came from a kind of source.
pub open spec fn count_of(entries: Seq<EntryModel>, source: SourceKey) -> nat
    decreases entries.len(),
{
    if entries.len() == 0 {
        0
    } else {
        count_of(entries.drop_last(), source) + if entries.last().source == source {
            1nat
        } else {
            0nat
        }
    }
}

/// Whether a plugin may be named: it is part of this binary, or it came from
/// GitHub and is featured.
pub open spec fn may_be_named(entry: EntryModel) -> bool {
    entry.source is Builtin || (entry.source is GitHub && entry.featured)
}

/// The plugins that may be named, with whether they are active; of two
/// entries with one id the last counts.
pub open spec fn named_active(entries: Seq<EntryModel>) -> Map<Seq<char>, bool>
    decreases entries.len(),
{
    if entries.len() == 0 {
        Map::empty()
    } else {
        let head = named_active(entries.drop_last());
        let last = entries.last();
        if may_be_named(last) {
            head.insert(last.id, last.active)
        } else {
            head
        }
    }
}

/// The census: one count per kind of source.
pub open spec fn census(entries: Seq<EntryModel>) -> Map<Seq<char>, u32> {
    map![
        "builtin"@ => count_of(entries, SourceKey::Builtin) as u32,
        "github"@ => count_of(entries, SourceKey::GitHub) as u32,
        "path"@ => count_of(entries, SourceKey::Path) as u32,
    ]
}

proof fn count_is_bounded(entries: Seq<EntryModel>, source: SourceKey)
    ensures
        count_of(entries, source) <= entries.len(),
    decreases entries.len(),
{
    if entries.len() > 0 {
        count_is_bounded(entries.drop_last(), source);
    }
}

/// Pure core: each entry is (plugin id, source, active,
/// id-is-in-featured-index).
pub fn adoption_from(plugins: Vec<(String, PluginSource, bool, bool)>) -> (r: PluginAdoption)
    requires
        plugins.len() <= u32::MAX,
    ensures
        r.by_source@ == census(entry_models(plugins@)),
        r.active@ == named_active(entry_models(plugins@)),
{
    let ghost all = entry_models(plugins@);
    let mut builtin: u32 = 0;
    let mut github: u32 = 0;
    let mut path: u32 = 0;
    let mut active: NameMap<bool> = NameMap::new();
    let mut i: usize = 0;
    while i < plugins.len()
        invariant
            i <= plugins.len() <= u32::MAX,
            all == entry_models(plugins@),
            builtin == count_of(all.take(i as int), SourceKey::Builtin),
            github == count_of(all.take(i as int), SourceKey::GitHub),
            path == count_of(all.take(i as int), SourceKey::Path),
            active@ == named_active(all.take(i as int)),
        decreases plugins.len() - i,
    {
        proof {
            count_is_bounded(all.take(i as int), SourceKey::Builtin);
            count_is_bounded(all.take(i as int), SourceKey::GitHub);
            count_is_bounded(all.take(i as int), SourceKey::Path);
            assert(all.take(i + 1).drop_last() =~= all.take(i as int));
            assert(all.take(i + 1).last() == entry_model(plugins@[i as int]));
        }
        let (id, source, is_active, featured) = &plugins[i];
        let allowlisted = match source {
            PluginSource::Builtin => {
                builtin += 1;
                true
            },
            // Identity only for curated featured plugins: an unfeatured
            // GitHub source can be a private repository, so its slug and
            // manifest id stay off the wire.
            PluginSource::GitHub { .. } => {
                github += 1;
                *featured
            },
            PluginSource::Path { .. } => {
                path += 1;
                false
            },
        };
        if allowlisted {
            active.insert(id.as_str(), *is_active);
        }
        i += 1;
    }
    assert(all.take(i as int) =~= all);
    let mut by_source: NameMap<u32> = NameMap::new();
    by_source.insert("builtin", builtin);
    by_source.insert("github", github);
    by_source.insert("path", path);
    PluginAdoption { by_source, active }
}

/// The entries of the plugins of a registry.
pub open spec fn registry_entries(
    plugins: Seq<LoadedPlugin>,
    featured: Seq<Seq<char>>,
) -> Seq<EntryModel> {
    plugins.map_values(
        |p: LoadedPlugin|
            EntryModel {
                id: p.manifest.id@,
                source: source_key(p.source),
                active: registry::is_active(p),
                featured: featured.contains(p.manifest.id@),
            },
    )
}

/// Snapshot the plugin registry into the two adoption maps. `featured` holds
/// the ids of the featured index.
pub fn plugin_adoption(registry: &PluginRegistry, featured: &Vec<String>) -> (r: PluginAdoption)
    requires
        registry.plugins.len() <= u32::MAX,
    ensures
        r.by_source@ == census(registry_entries(registry.plugins@, text::texts(featured@))),
        r.active@ == named_active(registry_entries(registry.plugins@, text::texts(featured@))),
{
    let plugins = &registry.plugins;
    let mut entries: Vec<(String, PluginSource, bool, bool)> = Vec::new();
    let ghost wanted = registry_entries(plugins@, text::texts(featured@));
    let mut i: usize = 0;
    while i < plugins.len()
        invariant
            i <= plugins.len(),
            entries.len() == i,
            wanted == registry_entries(plugins@, text::texts(featured@)),
            forall|j: int| 0 <= j < i ==> entry_model(#[trigger] entries@[j]) == wanted[j],
        decreases plugins.len() - i,
    {
        let p = &plugins[i];
        entries.push(
            (
                p.id().to_owned(),
                p.source.clone(),
                p.active(),
                contains_text(featured, p.id()),
            ),
        );
        assert(entry_model(entries@[i as int]) == wanted[i as int]);
        i += 1;
    }
    assert(entry_models(entries@) =~= wanted);
    adoption_from(entries)
}

/// Only plugins that may be named are named: an id in the map belongs to a
/// builtin plugin or to a featured one from GitHub.
pub proof fn unlisted_plugins_are_never_named(entries: Seq<EntryModel>, id: Seq<char>)
    ensures
        named_active(entries).contains_key(id) <==> exists|i: int|
            0 <= i < entries.len() && (#[trigger] entries[i]).id == id && may_be_named(entries[i]),
    decreases entries.len(),
{
    if entries.len() > 0 {
        let head = entries.drop_last();
        unlisted_plugins_are_never_named(head, id);
        if named_active(head).contains_key(id) {
            let i = choose|i: int|
                0 <= i < head.len() && (#[trigger] head[i]).id == id && may_be_named(head[i]);
            assert(entries[i] == head[i]);
        }
        if may_be_named(entries.last()) && entries.last().id == id {
            assert(entries[entries.len() - 1].id == id);
        }
        if exists|i: int|
            0 <= i < entries.len() && (#[trigger] entries[i]).id == id && may_be_named(
                entries[i],
            ) {
            let i = choose|i: int|
                0 <= i < entries.len() && (#[trigger] entries[i]).id == id && may_be_named(
                    entries[i],
                );
            if i < head.len() {
                assert(head[i] == entries[i]);
            }
        }
    }
}

/// Every plugin is counted under exactly one source.
pub proof fn census_counts_every_plugin(entries: Seq<EntryModel>)
    ensures
        count_of(entries, SourceKey::Builtin) + count_of(entries, SourceKey::GitHub) + count_of(
            entries,
            SourceKey::Path,
        ) == entries.len(),
    decreases entries.len(),
{
    if entries.len() > 0 {
        census_counts_every_plugin(entries.drop_last());
    }
}

/// The three source keys are always there, and no other.
pub proof fn source_keys_are_closed(entries: Seq<EntryModel>, key: Seq<char>)
    ensures
        census(entries).contains_key(key) <==> key == "builtin"@ || key == "github"@ || key
            == "path"@,
{
}

/// Whether two installed plugins differ at most in what the report must not
/// tell: a slug, a path, or the id and the state of a plugin that may not be
/// named.
pub open spec fn alike(
    a: (String, PluginSource, bool, bool),
    b: (String, PluginSource, bool, bool),
) -> bool {
    &&& source_key(a.1) == source_key(b.1)
    &&& a.1 is GitHub ==> a.3 == b.3
    &&& may_be_named(entry_model(a)) ==> a.0@ == b.0@ && a.2 == b.2
}

/// Two lists that differ only in slugs, paths and plugins that may not be
/// named give the same report: none of these ever leaves the machine.
pub proof fn reports_hide_unlisted_plugins(
    xs: Seq<(String, PluginSource, bool, bool)>,
    ys: Seq<(String, PluginSource, bool, bool)>,
)
    requires
        xs.len() == ys.len(),
        forall|i: int| 0 <= i < xs.len() ==> alike(#[trigger] xs[i], #[trigger] ys[i]),
    ensures
        census(entry_models(xs)) == census(entry_models(ys)),
        named_active(entry_models(xs)) == named_active(entry_models(ys)),
    decreases xs.len(),
{
    same_counts(xs, ys, SourceKey::Builtin);
    same_counts(xs, ys, SourceKey::GitHub);
    same_counts(xs, ys, SourceKey::Path);
    if xs.len() > 0 {
        let a = xs.drop_last();
        let b = ys.drop_last();
        assert forall|i: int| 0 <= i < a.len() implies alike(#[trigger] a[i], #[trigger] b[i]) by {
            assert(alike(xs[i], ys[i]));
        }
        reports_hide_unlisted_plugins(a, b);
        assert(entry_models(xs).drop_last() =~= entry_models(a));
        assert(entry_models(ys).drop_last() =~= entry_models(b));
        assert(alike(xs[xs.len() - 1], ys[ys.len() - 1]));
    }
}

proof fn same_counts(
    xs: Seq<(String, PluginSource, bool, bool)>,
    ys: Seq<(String, PluginSource, bool, bool)>,
    source: SourceKey,
)
    requires
        xs.len() == ys.len(),
        forall|i: int| 0 <= i < xs.len() ==> alike(#[trigger] xs[i], #[trigger] ys[i]),
    ensures
        count_of(entry_models(xs), source) == count_of(entry_models(ys), source),
    decreases xs.len(),
{
    if xs.len() > 0 {
        let a = xs.drop_last();
        let b = ys.drop_last();
        assert forall|i: int| 0 <= i < a.len() implies alike(#[trigger] a[i], #[trigger] b[i]) by {
            assert(alike(xs[i], ys[i]));
        }
        same_counts(a, b, source);
        assert(entry_models(xs).drop_last() =~= entry_models(a));
        assert(entry_models(ys).drop_last() =~= entry_models(b));
        assert(alike(xs[xs.len() - 1], ys[ys.len() - 1]));
    }
}

/// The census counts each kind of source by itself: one more plugin adds one to
/// the count of its kind and to no other.
pub proof fn census_counts_by_kind(
    entries: Seq<EntryModel>,
    entry: EntryModel,
    source: PluginSource,
)
    ensures
        entries.len() <= u32::MAX ==> census(entries)["builtin"@] + census(entries)["github"@]
            + census(entries)["path"@] == entries.len(),
        entries.len() < u32::MAX ==> ({
            let before = census(entries);
            let after = census(entries.push(entry));
            &&& after["builtin"@] == before["builtin"@] + (if entry.source is Builtin {
                1int
            } else {
                0
            })
            &&& after["github"@] == before["github"@] + (if entry.source is GitHub {
                1int
            } else {
                0
            })
            &&& after["path"@] == before["path"@] + (if entry.source is Path {
                1int
            } else {
                0
            })
        }),
        census(Seq::empty())["builtin"@] == 0 && census(Seq::empty())["github"@] == 0 && census(
            Seq::empty(),
        )["path"@] == 0,
        source is Builtin <==> source_key(source) is Builtin,
        source is GitHub <==> source_key(source) is GitHub,
        source is Path <==> source_key(source) is Path,
{
    reveal_strlit("builtin");
    reveal_strlit("github");
    reveal_strlit("path");
    assert("builtin"@.len() == 7 && "github"@.len() == 6 && "path"@.len() == 4);
    census_counts_every_plugin(entries);
    count_is_bounded(entries, SourceKey::Builtin);
    count_is_bounded(entries, SourceKey::GitHub);
    count_is_bounded(entries, SourceKey::Path);
    count_is_bounded(entries.push(entry), SourceKey::Builtin);
    count_is_bounded(entries.push(entry), SourceKey::GitHub);
    count_is_bounded(entries.push(entry), SourceKey::Path);
    assert(entries.push(entry).drop_last() =~= entries);
}

/// A plugin of this binary and a featured one from GitHub are reported under
/// their id with whether they are active, the last of an id counting; a plugin
/// from a path and an unfeatured one from GitHub are not.
pub proof fn listed_plugins_are_reported(entries: Seq<EntryModel>, entry: EntryModel, id: Seq<char>)
    ensures
        ({
            let before = named_active(entries);
            let after = named_active(entries.push(entry));
            let listed = entry.source is Builtin || (entry.source is GitHub && entry.featured);
            &&& listed ==> after.contains_key(entry.id) && after[entry.id] == entry.active
            &&& !listed || id != entry.id ==> after.contains_key(id) == before.contains_key(id)
            &&& (!listed || id != entry.id) && before.contains_key(id) ==> after[id] == before[id]
        }),
        !named_active(Seq::empty()).contains_key(id),
{
    assert(entries.push(entry).drop_last() =~= entries);
}

/// The report covers every plugin of the registry, by its own id, source and
/// state, and as featured where the index names it.
pub proof fn reports_cover_the_registry(
    plugins: Seq<LoadedPlugin>,
    featured: Seq<Seq<char>>,
    i: int,
)
    ensures
        registry_entries(plugins, featured).len() == plugins.len(),
        0 <= i < plugins.len() ==> ({
            let entry = registry_entries(plugins, featured)[i];
            let plugin = plugins[i];
            &&& entry.id == plugin.manifest.id@
            &&& entry.active == (plugin.enabled && plugin.granted)
            &&& entry.featured == featured.contains(plugin.manifest.id@)
            &&& entry.source is Builtin <==> plugin.source is Builtin
            &&& entry.source is GitHub <==> plugin.source is GitHub
            &&& entry.source is Path <==> plugin.source is Path
        }),
{
}

/// What contracts say of reported plugins are all their parts, in order.
pub proof fn entry_models_are_faithful(
    entries: Seq<(String, PluginSource, bool, bool)>,
    i: int,
)
    ensures
        entry_models(entries).len() == entries.len(),
        0 <= i < entries.len() ==> ({
            let model = entry_models(entries)[i];
            &&& model.id == entries[i].0@
            &&& model.source is Builtin <==> entries[i].1 is Builtin
            &&& model.source is GitHub <==> entries[i].1 is GitHub
            &&& model.source is Path <==> entries[i].1 is Path
            &&& model.active == entries[i].2
            &&& model.featured == entries[i].3
        }),
{
}

} // verus!
