//! The plugins that are known to this process.

use vstd::prelude::*;

use crate::name_map::NameMap;
use crate::plugin_api::manifest::PluginManifest;
use crate::text::same_text;

verus! {

/// Where a plugin came from.
#[derive(Debug)]
pub enum PluginSource {
    Builtin,
    GitHub { slug: String },
    Path { path: String },
}

impl Clone for PluginSource {
    fn clone(&self) -> (r: Self)
        ensures
            r == *self,
    {
        match self {
            PluginSource::Builtin => PluginSource::Builtin,
            PluginSource::GitHub { slug } => PluginSource::GitHub { slug: slug.clone() },
            PluginSource::Path { path } => PluginSource::Path { path: path.clone() },
        }
    }
}

/// One known plugin.
#[derive(Debug)]
pub struct LoadedPlugin {
    pub manifest: PluginManifest,
    /// The install directory, or `None` for a plugin of this binary.
    pub root: Option<String>,
    pub source: PluginSource,
    pub enabled: bool,
    /// The capability grant matches the current manifest.
    pub granted: bool,
    /// The settings that the user gave, by key.
    pub settings: NameMap<toml::Value>,
}

/// The known plugins, in the order in which they were found.
#[derive(Debug)]
pub struct PluginRegistry {
    pub plugins: Vec<LoadedPlugin>,
}

/// A plugin takes part when it is enabled and its capabilities are granted.
pub open spec fn is_active(plugin: LoadedPlugin) -> bool {
    plugin.enabled && plugin.granted
}

/// The first plugin with this id.
pub open spec fn find_plugin(plugins: Seq<LoadedPlugin>, id: Seq<char>) -> Option<LoadedPlugin>
    decreases plugins.len(),
{
    if plugins.len() == 0 {
        None
    } else if plugins[0].manifest.id@ == id {
        Some(plugins[0])
    } else {
        find_plugin(plugins.drop_first(), id)
    }
}

/// The first plugin with this id, if it takes part.
pub open spec fn find_active(plugins: Seq<LoadedPlugin>, id: Seq<char>) -> Option<LoadedPlugin> {
    match find_plugin(plugins, id) {
        Some(p) => if is_active(p) {
            Some(p)
        } else {
            None
        },
        None => None,
    }
}

impl LoadedPlugin {
    /// The id of the plugin.
    pub fn id(&self) -> (r: &str)
        ensures
            r@ == self.manifest.id@,
    {
        self.manifest.id.as_str()
    }

    /// Whether the plugin takes part.
    pub fn active(&self) -> (r: bool)
        ensures
            r == is_active(*self),
    {
        self.enabled && self.granted
    }
}

impl PluginRegistry {
    /// The plugin with this id, active or not.
    pub fn get(&self, id: &str) -> (r: Option<&LoadedPlugin>)
        ensures
            match r {
                Some(p) => find_plugin(self.plugins@, id@) == Some(*p),
                None => find_plugin(self.plugins@, id@) is None,
            },
    {
        let mut i: usize = 0;
        assert(self.plugins@.skip(0) =~= self.plugins@);
        while i < self.plugins.len()
            invariant
                i <= self.plugins.len(),
                find_plugin(self.plugins@, id@) == find_plugin(self.plugins@.skip(i as int), id@),
            decreases self.plugins.len() - i,
        {
            if same_text(self.plugins[i].id(), id) {
                return Some(&self.plugins[i]);
            }
            assert(self.plugins@.skip(i as int).drop_first() =~= self.plugins@.skip(i + 1));
            i += 1;
        }
        None
    }

    /// The plugin with this id, if it takes part.
    pub fn get_active(&self, id: &str) -> (r: Option<&LoadedPlugin>)
        ensures
            match r {
                Some(p) => find_active(self.plugins@, id@) == Some(*p),
                None => find_active(self.plugins@, id@) is None,
            },
    {
        match self.get(id) {
            Some(p) => if p.active() {
                Some(p)
            } else {
                None
            },
            None => None,
        }
    }
}

/// A plugin is found by its id, the first of an id counting, and it counts as
/// active exactly where it is both enabled and granted.
pub proof fn lookups_find_the_first(plugins: Seq<LoadedPlugin>, id: Seq<char>, at: int)
    requires
        0 <= at < plugins.len(),
        plugins[at].manifest.id@ == id,
        forall|j: int| 0 <= j < at ==> (#[trigger] plugins[j]).manifest.id@ != id,
    ensures
        find_plugin(plugins, id) == Some(plugins[at]),
        plugins[at].enabled && plugins[at].granted ==> find_active(plugins, id) == Some(
            plugins[at],
        ),
        !(plugins[at].enabled && plugins[at].granted) ==> find_active(plugins, id) is None,
    decreases plugins.len(),
{
    if at > 0 {
        assert(plugins[0].manifest.id@ != id);
        let tail = plugins.drop_first();
        assert forall|j: int| 0 <= j < at - 1 implies (#[trigger] tail[j]).manifest.id@ != id by {
            assert(plugins[j + 1].manifest.id@ != id);
        }
        lookups_find_the_first(tail, id, at - 1);
    }
}

/// An id that no plugin has finds none.
pub proof fn unknown_plugins_are_not_found(plugins: Seq<LoadedPlugin>, id: Seq<char>)
    requires
        forall|j: int| 0 <= j < plugins.len() ==> (#[trigger] plugins[j]).manifest.id@ != id,
    ensures
        find_plugin(plugins, id) is None,
        find_active(plugins, id) is None,
    decreases plugins.len(),
{
    if plugins.len() > 0 {
        let tail = plugins.drop_first();
        assert forall|j: int| 0 <= j < tail.len() implies (#[trigger] tail[j]).manifest.id@ != id by {
            assert(plugins[j + 1].manifest.id@ != id);
        }
        unknown_plugins_are_not_found(tail, id);
    }
}

/// Whatever is found has the id that was asked for and stands among the
/// plugins.
pub proof fn found_plugins_are_known(plugins: Seq<LoadedPlugin>, id: Seq<char>)
    ensures
        find_plugin(plugins, id) matches Some(p) ==> plugins.contains(p) && p.manifest.id@ == id,
        find_active(plugins, id) matches Some(p) ==> plugins.contains(p) && p.manifest.id@ == id
            && p.enabled && p.granted,
    decreases plugins.len(),
{
    if plugins.len() > 0 {
        if plugins[0].manifest.id@ == id {
            assert(plugins.contains(plugins[0]));
        } else {
            let tail = plugins.drop_first();
            found_plugins_are_known(tail, id);
            if find_plugin(tail, id) is Some {
                let p = find_plugin(tail, id)->0;
                let k = choose|k: int| 0 <= k < tail.len() && tail[k] == p;
                assert(plugins[k + 1] == p);
            }
        }
    }
}

} // verus!
