//! Plugin settings: runtime schema contribution and default resolution.
//!
//! Plugin settings ride the exact same descriptor pipeline as core settings:
//! each active plugin's manifest settings become [`FieldDescriptor`]s under a
//! virtual section `plugin:<id>`, and every surface consumes
//! [`runtime_schema`] instead of the core schema alone.
//!
//! The virtual section maps to the real config location
//! `plugins.<id>.settings.<key>` at the JSON read/write choke points
//! ([`nested_leaf`], [`json_at_descriptor`], [`expand_virtual_sections`]).
//! Profile overrides are not supported for plugin settings, so the
//! descriptors are emitted `profile_overridable: false`.
//!
//! Default-override resolution: user value, then the highest-priority enabled
//! plugin's `setting_defaults` override, then the owning manifest default,
//! then the widget default. [`ResolvedSetting`] carries the full losing chain.

use vstd::prelude::*;

use crate::json;
use crate::json::json_from_value;
use crate::json::merge_json;
use crate::json::put_field;
use crate::json::remove_field;
use crate::json::Json;
use crate::json::JsonModel;
use crate::plugin::registry;
use crate::plugin::registry::LoadedPlugin;
use crate::plugin::registry::PluginRegistry;
use crate::plugin_api::manifest::SettingContribution;
use crate::plugin_api::manifest::SettingDefault;
use crate::plugin_api::manifest::SettingWidget;
use crate::sorting;
use crate::sorting::stable_sort;
use crate::sorting::Ranked;
use crate::sorting::SortKey;
use crate::text;
use crate::text::concat2;
use crate::text::concat3;
use crate::text::has_prefix;
use crate::text::same_text;
use crate::text::text_less;

verus! {

/// Prefix marking a virtual plugin section in a `FieldDescriptor`. Core
/// section names come from struct identifiers, so the colon cannot collide.
pub const VIRTUAL_PREFIX: &'static str = "plugin:";

/// The virtual section of a plugin.
pub open spec fn section_of(plugin_id: Seq<char>) -> Seq<char> {
    "plugin:"@ + plugin_id
}

/// The plugin of a virtual section.
pub open spec fn plugin_of(section: Seq<char>) -> Option<Seq<char>> {
    if "plugin:"@.is_prefix_of(section) {
        Some(section.skip("plugin:"@.len() as int))
    } else {
        None
    }
}

/// The virtual schema section for a plugin's settings.
pub fn virtual_section(plugin_id: &str) -> (r: String)
    ensures
        r@ == section_of(plugin_id@),
{
    concat2(VIRTUAL_PREFIX, plugin_id)
}

/// `Some(plugin_id)` when `section` is a virtual plugin section.
pub fn parse_virtual(section: &str) -> (r: Option<&str>)
    ensures
        text::optional_str(r) == plugin_of(section@),
{
    if has_prefix(section, VIRTUAL_PREFIX) {
        let from = VIRTUAL_PREFIX.unicode_len();
        let to = section.unicode_len();
        assert(section@.subrange(from as int, to as int) =~= section@.skip(from as int));
        Some(section.substring_char(from, to))
    } else {
        None
    }
}

/// A section of a plugin names that plugin, and no other section does.
pub proof fn virtual_sections_round_trip(plugin_id: Seq<char>, section: Seq<char>)
    ensures
        plugin_of(section_of(plugin_id)) == Some(plugin_id),
        plugin_of(section) == Some(plugin_id) ==> section == section_of(plugin_id),
{
    let prefix = "plugin:"@;
    assert(prefix.is_prefix_of(section_of(plugin_id)));
    assert(section_of(plugin_id).skip(prefix.len() as int) =~= plugin_id);
    if plugin_of(section) == Some(plugin_id) {
        assert(section =~= prefix + section.skip(prefix.len() as int));
    }
}

/// The object that writes `section.field = leaf`.
pub open spec fn leaf_object(section: Seq<char>, field: Seq<char>, leaf: JsonModel) -> JsonModel {
    match plugin_of(section) {
        Some(id) => JsonModel::Object(
            map![
                "plugins"@ => JsonModel::Object(
                    map![
                        id => JsonModel::Object(
                            map!["settings"@ => JsonModel::Object(map![field => leaf])],
                        ),
                    ],
                ),
            ],
        ),
        None => JsonModel::Object(map![section => JsonModel::Object(map![field => leaf])]),
    }
}

/// Build the `{...}` JSON object that writes `section.field = leaf`. Core
/// sections produce the flat two-level shape; virtual plugin sections expand
/// to the real config nesting.
pub fn nested_leaf(section: &str, field: &str, leaf: Json) -> (r: Json)
    ensures
        r@ == leaf_object(section@, field@, leaf@),
{
    let fields = Json::empty_object().with(field, leaf);
    match parse_virtual(section) {
        Some(id) => {
            let plugin = Json::empty_object().with("settings", fields);
            let plugins = Json::empty_object().with(id, plugin);
            Json::empty_object().with("plugins", plugins)
        },
        None => Json::empty_object().with(section, fields),
    }
}

/// The field `key` of an optional object.
pub open spec fn field_in(model: Option<JsonModel>, key: Seq<char>) -> Option<JsonModel> {
    match model {
        Some(model) => json::field(model, key),
        None => None,
    }
}

/// The value of `section.field` in a config object.
pub open spec fn value_at(
    root: JsonModel,
    section: Seq<char>,
    field: Seq<char>,
) -> Option<JsonModel> {
    match plugin_of(section) {
        Some(id) => field_in(
            field_in(field_in(json::field(root, "plugins"@), id), "settings"@),
            field,
        ),
        None => field_in(json::field(root, section), field),
    }
}

/// Read the current value of `section.field` from a serialized config object,
/// resolving virtual plugin sections to their nested location.
pub fn json_at_descriptor<'a>(root: &'a Json, section: &str, field: &str) -> (r: Option<&'a Json>)
    ensures
        json::optional(r) == value_at(root@, section@, field@),
{
    match parse_virtual(section) {
        Some(id) => root.get("plugins")?.get(id)?.get("settings")?.get(field),
        None => root.get(section)?.get(field),
    }
}

/// What an object writes to a section and a field is read back there.
pub proof fn leaf_reads_back(section: Seq<char>, field: Seq<char>, leaf: JsonModel)
    ensures
        value_at(leaf_object(section, field, leaf), section, field) == Some(leaf),
{
}

/// The settings that a patch writes in the virtual section of a plugin:
/// an object that holds something.
pub open spec fn virtual_settings(patch: Map<Seq<char>, JsonModel>, id: Seq<char>) -> Option<
    JsonModel,
> {
    if patch.contains_key(section_of(id)) {
        match patch[section_of(id)] {
            JsonModel::Object(fields) => if fields == Map::<Seq<char>, JsonModel>::empty() {
                None
            } else {
                Some(JsonModel::Object(fields))
            },
            _ => None,
        }
    } else {
        None
    }
}

/// The nested form of one plugin's settings.
pub open spec fn plugin_object(settings: JsonModel) -> JsonModel {
    JsonModel::Object(map!["settings"@ => settings])
}

/// The nested form of all virtual sections of a patch.
pub open spec fn plugins_of(patch: Map<Seq<char>, JsonModel>) -> Map<Seq<char>, JsonModel> {
    Map::new(
        |id: Seq<char>| virtual_settings(patch, id) is Some,
        |id: Seq<char>| plugin_object(virtual_settings(patch, id)->0),
    )
}

/// A patch without its virtual sections.
pub open spec fn without_virtual(patch: Map<Seq<char>, JsonModel>) -> Map<Seq<char>, JsonModel> {
    Map::new(|k: Seq<char>| patch.contains_key(k) && plugin_of(k) is None, |k: Seq<char>| patch[k])
}

/// A patch with its virtual sections laid over `plugins` in their nested
/// form. Anything but an object stays as it is.
pub open spec fn expanded(patch: JsonModel) -> JsonModel {
    match patch {
        JsonModel::Object(fields) => {
            let base = JsonModel::Object(without_virtual(fields));
            if plugins_of(fields) == Map::<Seq<char>, JsonModel>::empty() {
                base
            } else {
                json::merged(
                    base,
                    JsonModel::Object(map!["plugins"@ => JsonModel::Object(plugins_of(fields))]),
                )
            }
        },
        _ => patch,
    }
}

/// Rewrite every virtual `plugin:<id>` section of a settings PATCH body into
/// the real `plugins.<id>.settings` nesting, in place. Run after validation
/// and before the patch is merged into the config.
pub fn expand_virtual_sections(patch: &mut Json)
    ensures
        final(patch)@ == expanded(old(patch)@),
{
    let mut whole = Json::Null;
    std::mem::swap(patch, &mut whole);
    let fields = match whole {
        Json::Object(fields) => fields,
        other => {
            *patch = other;
            return;
        },
    };
    let ghost all = fields@;
    let mut base: Vec<(String, Json)> = Vec::new();
    let mut plugins: Vec<(String, Json)> = Vec::new();
    assert(all.take(0) =~= Seq::empty());
    assert(json::fields_model(base@) =~= without_virtual(json::fields_model(all.take(0))));
    assert(json::fields_model(plugins@) =~= plugins_of(json::fields_model(all.take(0))));
    for pair in it: fields
        invariant
            it.seq() == all,
            json::fields_model(base@) == without_virtual(json::fields_model(all.take(it.index()))),
            json::fields_model(plugins@) == plugins_of(json::fields_model(all.take(it.index()))),
    {
        let ghost before = json::fields_model(all.take(it.index()));
        let ghost after = json::fields_model(all.take(it.index() + 1));
        assert(all.take(it.index() + 1).drop_last() =~= all.take(it.index()));
        let (name, value) = pair;
        assert(after == before.insert(name@, value@));
        match parse_virtual(name.as_str()) {
            Some(id) => {
                proof {
                    virtual_sections_round_trip(id@, name@);
                    assert forall|other: Seq<char>| other != id@ implies #[trigger] section_of(other)
                        != name@ by {
                        virtual_sections_round_trip(other, name@);
                    }
                }
                let holds = match &value {
                    Json::Object(inner) => {
                        proof {
                            json::fields_model_empty(inner@);
                        }
                        inner.len() > 0
                    },
                    _ => false,
                };
                if holds {
                    let nested = Json::empty_object().with("settings", value);
                    put_field(&mut plugins, id, nested);
                    assert(json::fields_model(plugins@) =~= plugins_of(after));
                } else {
                    remove_field(&mut plugins, id);
                    assert(json::fields_model(plugins@) =~= plugins_of(after));
                }
                assert(json::fields_model(base@) =~= without_virtual(after));
            },
            None => {
                proof {
                    assert forall|other: Seq<char>| #[trigger] section_of(other) != name@ by {
                        virtual_sections_round_trip(other, name@);
                    }
                }
                let ghost head = base@;
                base.push((name, value));
                assert(base@.drop_last() =~= head);
                assert(json::fields_model(base@) =~= without_virtual(after));
                assert(json::fields_model(plugins@) =~= plugins_of(after));
            },
        }
    }
    assert(all.take(all.len() as int) =~= all);
    proof {
        json::fields_model_empty(plugins@);
    }
    let base = Json::Object(base);
    if plugins.len() == 0 {
        *patch = base;
    } else {
        let nested = Json::empty_object().with("plugins", Json::Object(plugins));
        *patch = merge_json(&base, &nested);
    }
}

/// What a patch writes in a virtual section stands in the nested place after
/// the expansion, merged over what the patch had there.
pub proof fn expansion_moves_settings(
    patch: Map<Seq<char>, JsonModel>,
    id: Seq<char>,
    field: Seq<char>,
)
    ensures
        value_at(expanded(JsonModel::Object(patch)), section_of(id), field) == (match (
            value_at(JsonModel::Object(patch), section_of(id), field),
            field_in(virtual_settings(patch, id), field),
        ) {
            (Some(there), Some(written)) => Some(json::merged(there, written)),
            (None, Some(written)) => Some(written),
            (there, None) => there,
        }),
{
    reveal_with_fuel(json::merged, 2);
    virtual_sections_round_trip(id, section_of(id));
    reveal_strlit("plugins");
    reveal_strlit("plugin:");
    assert("plugins"@[6] == 's' && "plugin:"@[6] == ':');
    assert(plugin_of("plugins"@) is None);
    let nested = plugins_of(patch);
    let over = JsonModel::Object(nested);
    assert(nested.contains_key(id) <==> virtual_settings(patch, id) is Some);
    let out = expanded(JsonModel::Object(patch));
    if nested == Map::<Seq<char>, JsonModel>::empty() {
        assert(!nested.contains_key(id));
    } else if without_virtual(patch).contains_key("plugins"@) {
        let old_plugins = patch["plugins"@];
        let inner = json::merged(old_plugins, over);
        assert(json::field(out, "plugins"@) == Some(inner));
        if nested.contains_key(id) && json::field(old_plugins, id) is Some {
            let old_plugin = json::field(old_plugins, id)->0;
            let plugin = json::merged(old_plugin, nested[id]);
            assert(json::field(inner, id) == Some(plugin));
            let written = virtual_settings(patch, id)->0;
            match json::field(old_plugin, "settings"@) {
                Some(old_settings) => {
                    let settings = json::merged(old_settings, written);
                    assert(json::field(plugin, "settings"@) == Some(settings));
                },
                None => {
                    assert(json::field(plugin, "settings"@) == Some(written));
                },
            }
        } else {
            assert(json::field(inner, id) == if nested.contains_key(id) {
                Some(nested[id])
            } else {
                json::field(old_plugins, id)
            });
        }
    } else {
        assert(json::field(out, "plugins"@) == Some(over));
    }
}

/// No virtual section is left after the expansion, and every other section
/// but `plugins` is as it was.
pub proof fn expansion_keeps_core_sections(patch: Map<Seq<char>, JsonModel>, name: Seq<char>)
    requires
        name != "plugins"@,
    ensures
        json::field(expanded(JsonModel::Object(patch)), name) == (if plugin_of(name) is Some {
            None
        } else {
            json::field(JsonModel::Object(patch), name)
        }),
{
}

/// One choice of a select widget.
#[derive(Debug)]
pub struct SelectOption {
    pub value: String,
    pub label: String,
}

impl SelectOption {
    pub fn new(value: &str, label: &str) -> (r: Self)
        ensures
            r.value@ == value@,
            r.label@ == label@,
    {
        SelectOption { value: value.to_owned(), label: label.to_owned() }
    }
}

/// How a field is edited.
#[derive(Debug)]
pub enum WidgetKind {
    Toggle,
    Text { multiline: bool, mono: bool },
    Number { min: Option<i64>, max: Option<i64> },
    Select { options: Vec<SelectOption> },
}

/// Whether the web surface may write a field.
#[derive(Debug, Clone, Copy, PartialEq, Eq, Structural)]
pub enum WebWritePolicy {
    Allow,
    Deny,
}

/// How a written value is checked beyond its widget.
#[derive(Debug, Clone, Copy, PartialEq, Eq, Structural)]
pub enum ValidationKind {
    Unchecked,
    NonEmpty,
}

/// One editable field of the settings surface.
#[derive(Debug)]
pub struct FieldDescriptor {
    pub section: String,
    pub field: String,
    pub category: String,
    pub label: String,
    pub description: String,
    pub widget: WidgetKind,
    pub web_write: WebWritePolicy,
    pub profile_overridable: bool,
    pub validation: ValidationKind,
    pub advanced: bool,
}

/// What contracts say of a widget.
pub enum WidgetModel {
    Toggle,
    Text { multiline: bool, mono: bool },
    Number { min: Option<i64>, max: Option<i64> },
    Select { options: Seq<(Seq<char>, Seq<char>)> },
}

/// What contracts say of a field.
pub struct DescriptorModel {
    pub section: Seq<char>,
    pub field: Seq<char>,
    pub category: Seq<char>,
    pub label: Seq<char>,
    pub description: Seq<char>,
    pub widget: WidgetModel,
    pub web_write: WebWritePolicy,
    pub profile_overridable: bool,
    pub validation: ValidationKind,
    pub advanced: bool,
}

impl View for WidgetKind {
    type V = WidgetModel;

    open spec fn view(&self) -> WidgetModel {
        match *self {
            WidgetKind::Toggle => WidgetModel::Toggle,
            WidgetKind::Text { multiline, mono } => WidgetModel::Text { multiline, mono },
            WidgetKind::Number { min, max } => WidgetModel::Number { min, max },
            WidgetKind::Select { options } => WidgetModel::Select {
                options: options@.map_values(|o: SelectOption| (o.value@, o.label@)),
            },
        }
    }
}

impl View for FieldDescriptor {
    type V = DescriptorModel;

    open spec fn view(&self) -> DescriptorModel {
        DescriptorModel {
            section: self.section@,
            field: self.field@,
            category: self.category@,
            label: self.label@,
            description: self.description@,
            widget: self.widget@,
            web_write: self.web_write,
            profile_overridable: self.profile_overridable,
            validation: self.validation,
            advanced: self.advanced,
        }
    }
}

/// The models of a schema.
pub open spec fn descriptor_models(fields: Seq<FieldDescriptor>) -> Seq<DescriptorModel> {
    fields.map_values(|f: FieldDescriptor| f@)
}

/// The widget that edits a plugin setting; a select shows its values.
pub open spec fn widget_model(widget: SettingWidget) -> WidgetModel {
    match widget {
        SettingWidget::Toggle => WidgetModel::Toggle,
        SettingWidget::Text => WidgetModel::Text { multiline: false, mono: false },
        SettingWidget::Number { min, max, .. } => WidgetModel::Number { min, max },
        SettingWidget::Select { options } => WidgetModel::Select {
            options: options@.map_values(|s: String| (s@, s@)),
        },
    }
}

/// The field that a plugin setting contributes.
pub open spec fn contributed(plugin_id: Seq<char>, setting: SettingContribution) -> DescriptorModel {
    DescriptorModel {
        section: section_of(plugin_id),
        field: setting.key@,
        category: "Plugins"@,
        label: setting.label@,
        description: setting.description@,
        widget: widget_model(setting.widget),
        web_write: WebWritePolicy::Allow,
        profile_overridable: false,
        validation: ValidationKind::Unchecked,
        advanced: false,
    }
}

/// The fields that one plugin contributes.
pub open spec fn contributed_by(
    plugin_id: Seq<char>,
    settings: Seq<SettingContribution>,
) -> Seq<DescriptorModel> {
    settings.map_values(|s: SettingContribution| contributed(plugin_id, s))
}

/// The fields that the plugins that take part contribute.
pub open spec fn contributed_in(plugins: Seq<LoadedPlugin>) -> Seq<DescriptorModel>
    decreases plugins.len(),
{
    if plugins.len() == 0 {
        seq![]
    } else {
        let head = contributed_in(plugins.drop_last());
        let plugin = plugins.last();
        if registry::is_active(plugin) {
            head + contributed_by(plugin.manifest.id@, plugin.manifest.settings@)
        } else {
            head
        }
    }
}

fn widget_for(widget: &SettingWidget) -> (r: WidgetKind)
    ensures
        r@ == widget_model(*widget),
{
    match widget {
        SettingWidget::Toggle => WidgetKind::Toggle,
        SettingWidget::Text => WidgetKind::Text { multiline: false, mono: false },
        SettingWidget::Number { min, max, .. } => WidgetKind::Number { min: *min, max: *max },
        SettingWidget::Select { options } => {
            let mut out: Vec<SelectOption> = Vec::new();
            let mut i: usize = 0;
            while i < options.len()
                invariant
                    i <= options.len(),
                    out.len() == i,
                    forall|j: int|
                        0 <= j < i ==> (#[trigger] out@[j]).value@ == options@[j]@ && out@[j].label@
                            == options@[j]@,
                decreases options.len() - i,
            {
                out.push(SelectOption::new(options[i].as_str(), options[i].as_str()));
                i += 1;
            }
            assert(out@.map_values(|o: SelectOption| (o.value@, o.label@)) =~= options@.map_values(
                |s: String| (s@, s@),
            ));
            WidgetKind::Select { options: out }
        },
    }
}

fn descriptor_for(plugin_id: &str, setting: &SettingContribution) -> (r: FieldDescriptor)
    ensures
        r@ == contributed(plugin_id@, *setting),
{
    FieldDescriptor {
        section: virtual_section(plugin_id),
        field: setting.key.clone(),
        category: "Plugins".to_owned(),
        label: setting.label.clone(),
        description: setting.description.clone(),
        widget: widget_for(&setting.widget),
        web_write: WebWritePolicy::Allow,
        profile_overridable: false,
        validation: ValidationKind::Unchecked,
        advanced: false,
    }
}

/// Core schema plus the descriptors contributed by every active plugin.
pub fn runtime_schema(core: Vec<FieldDescriptor>, registry: &PluginRegistry) -> (r: Vec<
    FieldDescriptor,
>)
    ensures
        descriptor_models(r@) == descriptor_models(core@) + contributed_in(registry.plugins@),
{
    let plugins = &registry.plugins;
    let ghost head = descriptor_models(core@);
    let mut all = core;
    let mut i: usize = 0;
    assert(descriptor_models(all@) =~= head + contributed_in(plugins@.take(0)));
    while i < plugins.len()
        invariant
            i <= plugins.len(),
            descriptor_models(all@) == head + contributed_in(plugins@.take(i as int)),
        decreases plugins.len() - i,
    {
        let plugin = &plugins[i];
        assert(plugins@.take(i + 1).drop_last() =~= plugins@.take(i as int));
        if plugin.active() {
            let settings = &plugin.manifest.settings;
            let ghost before = descriptor_models(all@);
            let ghost added = contributed_by(plugin.manifest.id@, settings@);
            let mut j: usize = 0;
            assert(descriptor_models(all@) =~= before + added.take(0));
            while j < settings.len()
                invariant
                    j <= settings.len(),
                    settings == &plugin.manifest.settings,
                    added == contributed_by(plugin.manifest.id@, settings@),
                    descriptor_models(all@) == before + added.take(j as int),
                decreases settings.len() - j,
            {
                let ghost rows = descriptor_models(all@);
                let field = descriptor_for(plugin.id(), &settings[j]);
                let ghost model = field@;
                all.push(field);
                assert(descriptor_models(all@) =~= rows.push(model));
                assert(added.take(j + 1) =~= added.take(j as int).push(added[j as int]));
                j += 1;
                assert(descriptor_models(all@) =~= before + added.take(j as int));
            }
            assert(added.take(j as int) =~= added);
            assert(descriptor_models(all@) =~= head + contributed_in(plugins@.take(i + 1)));
        }
        i += 1;
    }
    assert(plugins@.take(i as int) =~= plugins@);
    all
}

/// Where a resolved plugin-setting value came from.
#[derive(Debug, PartialEq)]
pub enum SettingSource {
    /// Explicit value in config.toml; always wins.
    UserConfig,
    /// Another plugin's `setting_defaults` override.
    PluginDefault { plugin: String, priority: i32 },
    /// The owning plugin's manifest default.
    ManifestDefault,
    /// The widget's zero value; nothing else supplied one.
    SchemaDefault,
    /// The built-in value of a core setting.
    CoreDefault,
}

/// What contracts say of a source.
pub enum SourceModel {
    UserConfig,
    PluginDefault { plugin: Seq<char>, priority: i32 },
    ManifestDefault,
    SchemaDefault,
    CoreDefault,
}

impl View for SettingSource {
    type V = SourceModel;

    open spec fn view(&self) -> SourceModel {
        match *self {
            SettingSource::UserConfig => SourceModel::UserConfig,
            SettingSource::PluginDefault { plugin, priority } => SourceModel::PluginDefault {
                plugin: plugin@,
                priority,
            },
            SettingSource::ManifestDefault => SourceModel::ManifestDefault,
            SettingSource::SchemaDefault => SourceModel::SchemaDefault,
            SettingSource::CoreDefault => SourceModel::CoreDefault,
        }
    }
}

impl Clone for SettingSource {
    fn clone(&self) -> (r: Self)
        ensures
            r@ == self@,
    {
        match self {
            SettingSource::UserConfig => SettingSource::UserConfig,
            SettingSource::PluginDefault { plugin, priority } => SettingSource::PluginDefault {
                plugin: plugin.clone(),
                priority: *priority,
            },
            SettingSource::ManifestDefault => SettingSource::ManifestDefault,
            SettingSource::SchemaDefault => SettingSource::SchemaDefault,
            SettingSource::CoreDefault => SettingSource::CoreDefault,
        }
    }
}

/// One candidate in the resolution chain, winners and losers alike.
#[derive(Debug, Clone)]
pub struct SettingCandidate {
    pub source: SettingSource,
    pub value: Json,
}

/// What contracts say of a candidate.
pub struct CandidateModel {
    pub source: SourceModel,
    pub value: JsonModel,
}

impl View for SettingCandidate {
    type V = CandidateModel;

    open spec fn view(&self) -> CandidateModel {
        CandidateModel { source: self.source@, value: self.value@ }
    }
}

/// The models of a chain of candidates.
pub open spec fn candidate_models(candidates: Seq<SettingCandidate>) -> Seq<CandidateModel> {
    candidates.map_values(|c: SettingCandidate| c@)
}

/// A fully resolved plugin setting with provenance, for
/// `aoe settings explain <key>` and `GET /api/settings/resolved`.
#[derive(Debug, Clone)]
pub struct ResolvedSetting {
    /// Fully qualified key, `<plugin-id>.<key>`.
    pub key: String,
    pub value: Json,
    pub source: SettingSource,
    /// The full chain in precedence order; `candidates[0]` is the winner.
    pub candidates: Vec<SettingCandidate>,
}

/// What contracts say of a resolved setting.
pub struct ResolvedModel {
    pub key: Seq<char>,
    pub value: JsonModel,
    pub source: SourceModel,
    pub candidates: Seq<CandidateModel>,
}

impl View for ResolvedSetting {
    type V = ResolvedModel;

    open spec fn view(&self) -> ResolvedModel {
        ResolvedModel {
            key: self.key@,
            value: self.value@,
            source: self.source@,
            candidates: candidate_models(self.candidates@),
        }
    }
}

/// What a `toml::Value` holds, as JSON, or `None` where it has no JSON form.
pub uninterp spec fn toml_contents(value: toml::Value) -> Option<JsonModel>;

/// `serde_json::to_value` of a `toml::Value`. The contract names what comes
/// out and says nothing of the mapping between the two formats.
#[verifier::external_body]
fn convert_toml(value: &toml::Value) -> (r: Option<serde_json::Value>)
    ensures
        match r {
            Some(out) => toml_contents(*value) == Some(json::value_contents(out)),
            None => toml_contents(*value) is None,
        },
{
    serde_json::to_value(value).ok()
}

/// The JSON form of a configured value, null where it has none.
pub open spec fn toml_json(value: toml::Value) -> JsonModel {
    match toml_contents(value) {
        Some(model) => model,
        None => JsonModel::Null,
    }
}

fn toml_to_json(value: &toml::Value) -> (r: Json)
    ensures
        r@ == toml_json(*value),
{
    match convert_toml(value) {
        Some(out) => json_from_value(out),
        None => Json::Null,
    }
}

/// The zero value of a widget.
pub open spec fn widget_zero(widget: SettingWidget) -> JsonModel {
    match widget {
        SettingWidget::Toggle => JsonModel::Bool(false),
        SettingWidget::Text => JsonModel::Text(seq![]),
        SettingWidget::Number { start, .. } => start@,
        SettingWidget::Select { options } => JsonModel::Text(
            if options.len() > 0 {
                options@[0]@
            } else {
                seq![]
            },
        ),
    }
}

fn widget_default(widget: &SettingWidget) -> (r: Json)
    ensures
        r@ == widget_zero(*widget),
{
    proof {
        reveal_strlit("");
        assert(""@ =~= seq![]);
    }
    match widget {
        SettingWidget::Toggle => Json::Bool(false),
        SettingWidget::Text => Json::text(""),
        SettingWidget::Number { start, .. } => start.clone(),
        SettingWidget::Select { options } => if options.len() > 0 {
            Json::Text(options[0].clone())
        } else {
            Json::text("")
        },
    }
}

/// A default that another plugin asks for.
#[derive(Debug)]
pub struct SettingOverride {
    pub plugin: String,
    pub priority: i32,
    pub value: Json,
}

/// What contracts say of such a default.
pub struct OverrideModel {
    pub plugin: Seq<char>,
    pub priority: i32,
    pub value: JsonModel,
}

impl Ranked for SettingOverride {
    type Model = OverrideModel;

    open spec fn model(&self) -> OverrideModel {
        OverrideModel { plugin: self.plugin@, priority: self.priority, value: self.value@ }
    }

    /// Priority descending, then plugin id.
    open spec fn key_of(model: OverrideModel) -> SortKey {
        SortKey {
            first: -(model.priority as int),
            second: 0,
            name: model.plugin,
            detail: seq![],
        }
    }

    fn before(&self, other: &Self) -> (r: bool) {
        proof {
            text::text_lt_irreflexive(seq![]);
        }
        if self.priority != other.priority {
            return self.priority > other.priority;
        }
        text_less(self.plugin.as_str(), other.plugin.as_str())
    }
}

/// The qualified key of a setting.
pub open spec fn setting_target(plugin_id: Seq<char>, key: Seq<char>) -> Seq<char> {
    plugin_id + "."@ + key
}

/// The defaults of one plugin for a setting, in manifest order.
pub open spec fn overrides_by(
    plugin: Seq<char>,
    defaults: Seq<SettingDefault>,
    target: Seq<char>,
) -> Seq<OverrideModel>
    decreases defaults.len(),
{
    if defaults.len() == 0 {
        seq![]
    } else {
        let head = overrides_by(plugin, defaults.drop_last(), target);
        let last = defaults.last();
        if last.target@ == target {
            head.push(
                OverrideModel { plugin, priority: last.priority, value: toml_json(last.value) },
            )
        } else {
            head
        }
    }
}

/// The defaults of the other plugins that take part for a setting, in
/// registry order.
pub open spec fn overrides_in(
    plugins: Seq<LoadedPlugin>,
    owner: Seq<char>,
    target: Seq<char>,
) -> Seq<OverrideModel>
    decreases plugins.len(),
{
    if plugins.len() == 0 {
        seq![]
    } else {
        let head = overrides_in(plugins.drop_last(), owner, target);
        let plugin = plugins.last();
        if registry::is_active(plugin) && plugin.manifest.id@ != owner {
            head + overrides_by(plugin.manifest.id@, plugin.manifest.setting_defaults@, target)
        } else {
            head
        }
    }
}

/// The defaults of the other plugins, the strongest first.
pub open spec fn ranked_overrides(
    plugins: Seq<LoadedPlugin>,
    owner: Seq<char>,
    target: Seq<char>,
) -> Seq<OverrideModel> {
    sorting::stable_sorted::<SettingOverride>(overrides_in(plugins, owner, target))
}

/// The candidate that a default of another plugin gives.
pub open spec fn override_candidate(given: OverrideModel) -> CandidateModel {
    CandidateModel {
        source: SourceModel::PluginDefault { plugin: given.plugin, priority: given.priority },
        value: given.value,
    }
}

/// The user's value of a setting.
pub open spec fn user_candidates(
    plugins: Seq<LoadedPlugin>,
    plugin_id: Seq<char>,
    key: Seq<char>,
) -> Seq<CandidateModel> {
    match registry::find_plugin(plugins, plugin_id) {
        Some(plugin) => if plugin.settings@.contains_key(key) {
            seq![
                CandidateModel {
                    source: SourceModel::UserConfig,
                    value: toml_json(plugin.settings@[key]),
                },
            ]
        } else {
            seq![]
        },
        None => seq![],
    }
}

/// The manifest default of a setting.
pub open spec fn manifest_candidates(setting: SettingContribution) -> Seq<CandidateModel> {
    match setting.default {
        Some(value) => seq![
            CandidateModel { source: SourceModel::ManifestDefault, value: toml_json(value) },
        ],
        None => seq![],
    }
}

/// The chain of candidates in precedence order: the user's value, the
/// defaults of other plugins, the manifest default, the widget's zero value.
pub open spec fn candidate_chain(
    plugins: Seq<LoadedPlugin>,
    plugin_id: Seq<char>,
    setting: SettingContribution,
) -> Seq<CandidateModel> {
    let overrides = ranked_overrides(
        plugins,
        plugin_id,
        setting_target(plugin_id, setting.key@),
    );
    user_candidates(plugins, plugin_id, setting.key@) + overrides.map_values(
        |o: OverrideModel| override_candidate(o),
    ) + manifest_candidates(setting) + seq![
        CandidateModel { source: SourceModel::SchemaDefault, value: widget_zero(setting.widget) },
    ]
}

/// A setting with the first candidate of its chain.
pub open spec fn resolved(
    plugins: Seq<LoadedPlugin>,
    plugin_id: Seq<char>,
    setting: SettingContribution,
) -> ResolvedModel {
    let candidates = candidate_chain(plugins, plugin_id, setting);
    ResolvedModel {
        key: setting_target(plugin_id, setting.key@),
        value: candidates[0].value,
        source: candidates[0].source,
        candidates,
    }
}

fn collect_overrides(registry: &PluginRegistry, owner: &str, target: &str) -> (r: Vec<
    SettingOverride,
>)
    ensures
        sorting::models(r@) == overrides_in(registry.plugins@, owner@, target@),
{
    let plugins = &registry.plugins;
    let mut out: Vec<SettingOverride> = Vec::new();
    let mut i: usize = 0;
    assert(sorting::models(out@) =~= overrides_in(plugins@.take(0), owner@, target@));
    while i < plugins.len()
        invariant
            i <= plugins.len(),
            sorting::models(out@) == overrides_in(plugins@.take(i as int), owner@, target@),
        decreases plugins.len() - i,
    {
        let plugin = &plugins[i];
        assert(plugins@.take(i + 1).drop_last() =~= plugins@.take(i as int));
        if plugin.active() && !same_text(plugin.id(), owner) {
            let defaults = &plugin.manifest.setting_defaults;
            let ghost id = plugin.manifest.id@;
            let ghost head = sorting::models(out@);
            let mut j: usize = 0;
            assert(sorting::models(out@) =~= head + overrides_by(id, defaults@.take(0), target@));
            while j < defaults.len()
                invariant
                    j <= defaults.len(),
                    defaults == &plugin.manifest.setting_defaults,
                    id == plugin.manifest.id@,
                    sorting::models(out@) == head + overrides_by(
                        id,
                        defaults@.take(j as int),
                        target@,
                    ),
                decreases defaults.len() - j,
            {
                assert(defaults@.take(j + 1).drop_last() =~= defaults@.take(j as int));
                if same_text(defaults[j].target.as_str(), target) {
                    let ghost before = sorting::models(out@);
                    let row = SettingOverride {
                        plugin: plugin.id().to_owned(),
                        priority: defaults[j].priority,
                        value: toml_to_json(&defaults[j].value),
                    };
                    let ghost model = row.model();
                    out.push(row);
                    assert(sorting::models(out@) =~= before.push(model));
                }
                j += 1;
                assert(sorting::models(out@) =~= head + overrides_by(
                    id,
                    defaults@.take(j as int),
                    target@,
                ));
            }
            assert(defaults@.take(j as int) =~= defaults@);
        }
        i += 1;
    }
    assert(plugins@.take(i as int) =~= plugins@);
    out
}

fn resolve_one(
    registry: &PluginRegistry,
    plugin_id: &str,
    setting: &SettingContribution,
) -> (r: ResolvedSetting)
    ensures
        r@ == resolved(registry.plugins@, plugin_id@, *setting),
{
    let target = concat3(plugin_id, ".", setting.key.as_str());
    let mut candidates: Vec<SettingCandidate> = Vec::new();
    let ghost user = user_candidates(registry.plugins@, plugin_id@, setting.key@);
    if let Some(plugin) = registry.get(plugin_id) {
        if let Some(value) = plugin.settings.get(setting.key.as_str()) {
            candidates.push(
                SettingCandidate { source: SettingSource::UserConfig, value: toml_to_json(value) },
            );
        }
    }
    assert(candidate_models(candidates@) =~= user);
    // Default overrides from every active plugin, highest priority first.
    // The owning plugin may not override its own setting this way; its
    // channel is the manifest default.
    let overrides = stable_sort(collect_overrides(registry, plugin_id, target.as_str()));
    let ghost ranked = ranked_overrides(registry.plugins@, plugin_id@, target@);
    let ghost rows = overrides@;
    let ghost given = ranked.map_values(|o: OverrideModel| override_candidate(o));
    assert(candidate_models(candidates@) =~= user + given.take(0));
    for row in it: overrides
        invariant
            it.seq() == rows,
            sorting::models(rows) == ranked,
            given == ranked.map_values(|o: OverrideModel| override_candidate(o)),
            candidate_models(candidates@) == user + given.take(it.index()),
    {
        let ghost before = candidate_models(candidates@);
        let ghost model = override_candidate(row.model());
        assert(sorting::models(rows)[it.index()] == row.model());
        candidates.push(
            SettingCandidate {
                source: SettingSource::PluginDefault {
                    plugin: row.plugin,
                    priority: row.priority,
                },
                value: row.value,
            },
        );
        assert(candidate_models(candidates@) =~= before.push(model));
        assert(given.take(it.index() + 1) =~= given.take(it.index()).push(given[it.index()]));
        assert(candidate_models(candidates@) =~= user + given.take(it.index() + 1));
    }
    assert(given.take(given.len() as int) =~= given);
    let ghost before = candidate_models(candidates@);
    let ghost manifest = manifest_candidates(*setting);
    if let Some(default) = &setting.default {
        candidates.push(
            SettingCandidate {
                source: SettingSource::ManifestDefault,
                value: toml_to_json(default),
            },
        );
    }
    assert(candidate_models(candidates@) =~= before + manifest);
    candidates.push(
        SettingCandidate {
            source: SettingSource::SchemaDefault,
            value: widget_default(&setting.widget),
        },
    );
    assert(candidate_models(candidates@) =~= candidate_chain(
        registry.plugins@,
        plugin_id@,
        *setting,
    ));
    let value = candidates[0].value.clone();
    let source = candidates[0].source.clone();
    assert(candidate_models(candidates@)[0] == candidates@[0]@);
    ResolvedSetting { key: target, value, source, candidates }
}

/// The models of a list of resolved settings.
pub open spec fn resolved_models(settings: Seq<ResolvedSetting>) -> Seq<ResolvedModel> {
    settings.map_values(|s: ResolvedSetting| s@)
}

/// The settings of some of the plugins that take part, resolved against all
/// plugins.
pub open spec fn resolved_in(
    plugins: Seq<LoadedPlugin>,
    all: Seq<LoadedPlugin>,
) -> Seq<ResolvedModel>
    decreases plugins.len(),
{
    if plugins.len() == 0 {
        seq![]
    } else {
        let head = resolved_in(plugins.drop_last(), all);
        let plugin = plugins.last();
        if registry::is_active(plugin) {
            head + plugin.manifest.settings@.map_values(
                |s: SettingContribution| resolved(all, plugin.manifest.id@, s),
            )
        } else {
            head
        }
    }
}

/// Resolve every setting of every active plugin.
pub fn resolve_all(registry: &PluginRegistry) -> (r: Vec<ResolvedSetting>)
    ensures
        resolved_models(r@) == resolved_in(registry.plugins@, registry.plugins@),
{
    let plugins = &registry.plugins;
    let ghost all = plugins@;
    let mut out: Vec<ResolvedSetting> = Vec::new();
    let mut i: usize = 0;
    assert(resolved_models(out@) =~= resolved_in(plugins@.take(0), all));
    while i < plugins.len()
        invariant
            i <= plugins.len(),
            plugins == &registry.plugins,
            all == plugins@,
            resolved_models(out@) == resolved_in(plugins@.take(i as int), all),
        decreases plugins.len() - i,
    {
        let plugin = &plugins[i];
        assert(plugins@.take(i + 1).drop_last() =~= plugins@.take(i as int));
        if plugin.active() {
            let settings = &plugin.manifest.settings;
            let ghost id = plugin.manifest.id@;
            let ghost added = settings@.map_values(|s: SettingContribution| resolved(all, id, s));
            let ghost head = resolved_models(out@);
            let mut j: usize = 0;
            assert(resolved_models(out@) =~= head + added.take(0));
            while j < settings.len()
                invariant
                    j <= settings.len(),
                    settings == &plugin.manifest.settings,
                    id == plugin.manifest.id@,
                    all == registry.plugins@,
                    added == settings@.map_values(
                        |s: SettingContribution| resolved(all, id, s),
                    ),
                    resolved_models(out@) == head + added.take(j as int),
                decreases settings.len() - j,
            {
                let ghost before = resolved_models(out@);
                let one = resolve_one(registry, plugin.id(), &settings[j]);
                let ghost model = one@;
                out.push(one);
                assert(resolved_models(out@) =~= before.push(model));
                assert(added.take(j + 1) =~= added.take(j as int).push(added[j as int]));
                j += 1;
                assert(resolved_models(out@) =~= head + added.take(j as int));
            }
            assert(added.take(j as int) =~= added);
            assert(added =~= plugin.manifest.settings@.map_values(
                |s: SettingContribution| resolved(all, plugin.manifest.id@, s),
            ));
        }
        i += 1;
    }
    assert(plugins@.take(i as int) =~= plugins@);
    out
}

/// The first setting with this key.
pub open spec fn find_setting(settings: Seq<SettingContribution>, key: Seq<char>) -> Option<
    SettingContribution,
>
    decreases settings.len(),
{
    if settings.len() == 0 {
        None
    } else if settings[0].key@ == key {
        Some(settings[0])
    } else {
        find_setting(settings.drop_first(), key)
    }
}

/// A setting of a plugin that takes part, resolved.
pub open spec fn resolved_setting(
    plugins: Seq<LoadedPlugin>,
    plugin_id: Seq<char>,
    key: Seq<char>,
) -> Option<ResolvedModel> {
    match registry::find_active(plugins, plugin_id) {
        Some(plugin) => match find_setting(plugin.manifest.settings@, key) {
            Some(setting) => Some(resolved(plugins, plugin_id, setting)),
            None => None,
        },
        None => None,
    }
}

/// The model of an optional resolved setting.
pub open spec fn optional_resolved(r: Option<ResolvedSetting>) -> Option<ResolvedModel> {
    match r {
        Some(setting) => Some(setting@),
        None => None,
    }
}

/// Resolve a single `<plugin-id>.<key>`, or `None` if no active plugin
/// declares it.
pub fn resolve(registry: &PluginRegistry, plugin_id: &str, key: &str) -> (r: Option<
    ResolvedSetting,
>)
    ensures
        optional_resolved(r) == resolved_setting(registry.plugins@, plugin_id@, key@),
{
    let plugin = registry.get_active(plugin_id)?;
    let settings = &plugin.manifest.settings;
    let mut i: usize = 0;
    assert(settings@.skip(0) =~= settings@);
    while i < settings.len()
        invariant
            i <= settings.len(),
            settings == &plugin.manifest.settings,
            registry::find_active(registry.plugins@, plugin_id@) == Some(*plugin),
            find_setting(settings@, key@) == find_setting(settings@.skip(i as int), key@),
        decreases settings.len() - i,
    {
        if same_text(settings[i].key.as_str(), key) {
            return Some(resolve_one(registry, plugin_id, &settings[i]));
        }
        assert(settings@.skip(i as int).drop_first() =~= settings@.skip(i + 1));
        i += 1;
    }
    None
}

proof fn find_setting_is_listed(settings: Seq<SettingContribution>, key: Seq<char>)
    ensures
        find_setting(settings, key) matches Some(setting) ==> settings.contains(setting)
            && setting.key@ == key,
    decreases settings.len(),
{
    if settings.len() > 0 {
        let tail = settings.drop_first();
        find_setting_is_listed(tail, key);
        if settings[0].key@ != key && find_setting(tail, key) is Some {
            let k = choose|k: int| 0 <= k < tail.len() && tail[k] == find_setting(tail, key)->0;
            assert(settings[k + 1] == tail[k]);
        }
    }
}

proof fn listing_holds(
    plugins: Seq<LoadedPlugin>,
    all: Seq<LoadedPlugin>,
    i: int,
    setting: SettingContribution,
)
    requires
        0 <= i < plugins.len(),
        registry::is_active(plugins[i]),
        plugins[i].manifest.settings@.contains(setting),
    ensures
        resolved_in(plugins, all).contains(resolved(all, plugins[i].manifest.id@, setting)),
    decreases plugins.len(),
{
    let rest = plugins.drop_last();
    let head = resolved_in(rest, all);
    let out = resolved_in(plugins, all);
    let wanted = resolved(all, plugins[i].manifest.id@, setting);
    if i < rest.len() {
        listing_holds(rest, all, i, setting);
        let k = choose|k: int| 0 <= k < head.len() && head[k] == wanted;
        assert(out[k] == wanted);
    } else {
        let settings = plugins[i].manifest.settings@;
        let j = choose|j: int| 0 <= j < settings.len() && settings[j] == setting;
        assert(out[head.len() + j] == wanted);
    }
}

proof fn find_plugin_is_listed(plugins: Seq<LoadedPlugin>, id: Seq<char>)
    ensures
        registry::find_plugin(plugins, id) matches Some(plugin) ==> plugins.contains(plugin)
            && plugin.manifest.id@ == id,
    decreases plugins.len(),
{
    if plugins.len() > 0 {
        let tail = plugins.drop_first();
        find_plugin_is_listed(tail, id);
        if plugins[0].manifest.id@ != id && registry::find_plugin(tail, id) is Some {
            let k = choose|k: int|
                0 <= k < tail.len() && tail[k] == registry::find_plugin(tail, id)->0;
            assert(plugins[k + 1] == tail[k]);
        }
    }
}

/// Whatever a single setting resolves to is what the listing of all settings
/// shows for it.
pub proof fn listing_agrees_with_single_settings(
    plugins: Seq<LoadedPlugin>,
    plugin_id: Seq<char>,
    key: Seq<char>,
)
    ensures
        resolved_setting(plugins, plugin_id, key) matches Some(setting) ==> resolved_in(
            plugins,
            plugins,
        ).contains(setting),
{
    if let Some(plugin) = registry::find_active(plugins, plugin_id) {
        find_plugin_is_listed(plugins, plugin_id);
        find_setting_is_listed(plugin.manifest.settings@, key);
        let i = choose|i: int| 0 <= i < plugins.len() && plugins[i] == plugin;
        if let Some(setting) = find_setting(plugin.manifest.settings@, key) {
            listing_holds(plugins, plugins, i, setting);
        }
    }
}

/// There is always a winner: the first candidate, whose value and source the
/// setting has.
pub proof fn first_candidate_wins(
    plugins: Seq<LoadedPlugin>,
    plugin_id: Seq<char>,
    setting: SettingContribution,
)
    ensures
        ({
            let r = resolved(plugins, plugin_id, setting);
            &&& r.candidates.len() > 0
            &&& r.value == r.candidates[0].value
            &&& r.source == r.candidates[0].source
        }),
{
}

/// A value that the user gave wins over every default.
pub proof fn user_value_wins(
    plugins: Seq<LoadedPlugin>,
    plugin_id: Seq<char>,
    setting: SettingContribution,
)
    requires
        registry::find_plugin(plugins, plugin_id) matches Some(p) && p.settings@.contains_key(
            setting.key@,
        ),
    ensures
        ({
            let r = resolved(plugins, plugin_id, setting);
            let p = registry::find_plugin(plugins, plugin_id)->0;
            r.source == SourceModel::UserConfig && r.value == toml_json(p.settings@[setting.key@])
        }),
{
}

proof fn overrides_by_are_of(
    plugin: Seq<char>,
    defaults: Seq<SettingDefault>,
    target: Seq<char>,
)
    ensures
        forall|i: int|
            0 <= i < overrides_by(plugin, defaults, target).len() ==> (#[trigger] overrides_by(
                plugin,
                defaults,
                target,
            )[i]).plugin == plugin,
    decreases defaults.len(),
{
    if defaults.len() > 0 {
        overrides_by_are_of(plugin, defaults.drop_last(), target);
    }
}

proof fn overrides_in_are_active(plugins: Seq<LoadedPlugin>, owner: Seq<char>, target: Seq<char>)
    ensures
        forall|i: int|
            0 <= i < overrides_in(plugins, owner, target).len() ==> (#[trigger] overrides_in(
                plugins,
                owner,
                target,
            )[i]).plugin != owner && exists|k: int|
                0 <= k < plugins.len() && registry::is_active(#[trigger] plugins[k])
                    && plugins[k].manifest.id@ == overrides_in(plugins, owner, target)[i].plugin,
    decreases plugins.len(),
{
    if plugins.len() > 0 {
        let head = plugins.drop_last();
        let plugin = plugins.last();
        overrides_in_are_active(head, owner, target);
        overrides_by_are_of(plugin.manifest.id@, plugin.manifest.setting_defaults@, target);
        let before = overrides_in(head, owner, target);
        let all = overrides_in(plugins, owner, target);
        assert forall|i: int| 0 <= i < all.len() implies (#[trigger] all[i]).plugin != owner
            && exists|k: int|
            0 <= k < plugins.len() && registry::is_active(#[trigger] plugins[k])
                && plugins[k].manifest.id@ == all[i].plugin by {
            if i < before.len() {
                assert(all[i] == before[i]);
                let k = choose|k: int|
                    0 <= k < head.len() && registry::is_active(#[trigger] head[k])
                        && head[k].manifest.id@ == before[i].plugin;
                assert(plugins[k] == head[k]);
            } else {
                let by = overrides_by(
                    plugin.manifest.id@,
                    plugin.manifest.setting_defaults@,
                    target,
                );
                assert(all[i] == by[i - before.len()]);
                assert(registry::is_active(plugins[plugins.len() - 1]));
            }
        }
    }
}

/// A default override in a chain comes from another plugin that takes part.
pub proof fn overrides_come_from_other_active_plugins(
    plugins: Seq<LoadedPlugin>,
    plugin_id: Seq<char>,
    setting: SettingContribution,
    i: int,
)
    requires
        0 <= i < candidate_chain(plugins, plugin_id, setting).len(),
        candidate_chain(plugins, plugin_id, setting)[i].source is PluginDefault,
    ensures
        ({
            let plugin = candidate_chain(plugins, plugin_id, setting)[i].source->plugin;
            plugin != plugin_id && exists|k: int|
                0 <= k < plugins.len() && registry::is_active(#[trigger] plugins[k])
                    && plugins[k].manifest.id@ == plugin
        }),
{
    broadcast use vstd::seq_lib::group_to_multiset_ensures;

    let target = setting_target(plugin_id, setting.key@);
    let rows = overrides_in(plugins, plugin_id, target);
    let ranked = ranked_overrides(plugins, plugin_id, target);
    overrides_in_are_active(plugins, plugin_id, target);
    sorting::sorting_keeps_rows::<SettingOverride>(rows);
    let user = user_candidates(plugins, plugin_id, setting.key@);
    let at = i - user.len();
    let chain = candidate_chain(plugins, plugin_id, setting);
    assert(0 <= at < ranked.len());
    assert(chain[i] == override_candidate(ranked[at]));
    assert(ranked.contains(ranked[at]));
    assert(ranked.to_multiset().count(ranked[at]) > 0);
    assert(rows.to_multiset().count(ranked[at]) > 0);
    assert(rows.contains(ranked[at]));
}

/// Where the user gave no value and other plugins ask for a default, the one
/// of the highest priority wins, ahead of the manifest default.
pub proof fn strongest_override_wins(
    plugins: Seq<LoadedPlugin>,
    plugin_id: Seq<char>,
    setting: SettingContribution,
    other: OverrideModel,
)
    requires
        user_candidates(plugins, plugin_id, setting.key@).len() == 0,
        overrides_in(plugins, plugin_id, setting_target(plugin_id, setting.key@)).contains(other),
    ensures
        ({
            let source = resolved(plugins, plugin_id, setting).source;
            source is PluginDefault && source->priority >= other.priority
        }),
{
    broadcast use vstd::seq_lib::group_to_multiset_ensures;

    let target = setting_target(plugin_id, setting.key@);
    let rows = overrides_in(plugins, plugin_id, target);
    let ranked = ranked_overrides(plugins, plugin_id, target);
    sorting::sorting_keeps_rows::<SettingOverride>(rows);
    sorting::sorting_orders_rows::<SettingOverride>(rows);
    assert(rows.to_multiset().count(other) > 0);
    assert(ranked.to_multiset().count(other) > 0);
    assert(ranked.contains(other));
    let k = choose|k: int| 0 <= k < ranked.len() && ranked[k] == other;
    let chain = candidate_chain(plugins, plugin_id, setting);
    assert(chain[0] == override_candidate(ranked[0]));
    if k > 0 {
        assert(!sorting::key_lt(
            <SettingOverride as Ranked>::key_of(ranked[k]),
            <SettingOverride as Ranked>::key_of(ranked[0]),
        ));
    }
}

/// Without a user value and without overrides the manifest default holds, and
/// without that one the widget's zero value.
pub proof fn fallback_order(
    plugins: Seq<LoadedPlugin>,
    plugin_id: Seq<char>,
    setting: SettingContribution,
)
    requires
        user_candidates(plugins, plugin_id, setting.key@).len() == 0,
        overrides_in(plugins, plugin_id, setting_target(plugin_id, setting.key@)).len() == 0,
    ensures
        ({
            let r = resolved(plugins, plugin_id, setting);
            match setting.default {
                Some(value) => r.source == SourceModel::ManifestDefault && r.value == toml_json(
                    value,
                ),
                None => r.source == SourceModel::SchemaDefault && r.value == widget_zero(
                    setting.widget,
                ),
            }
        }),
{
    sorting::sorting_keeps_rows::<SettingOverride>(
        overrides_in(plugins, plugin_id, setting_target(plugin_id, setting.key@)),
    );
}

/// The section of a plugin is its id behind `plugin:`; any other section is no
/// plugin's.
pub proof fn plugin_sections_carry_the_prefix(plugin_id: Seq<char>, section: Seq<char>)
    ensures
        section_of(plugin_id) == "plugin:"@ + plugin_id,
        plugin_of("plugin:"@ + plugin_id) == Some(plugin_id),
        (forall|id: Seq<char>| section != #[trigger] ("plugin:"@ + id)) ==> plugin_of(section)
            is None,
{
    virtual_sections_round_trip(plugin_id, section);
    if plugin_of(section) is Some {
        virtual_sections_round_trip(plugin_of(section)->0, section);
        assert(section == "plugin:"@ + plugin_of(section)->0);
    }
}

/// A plugin's setting is written below `plugins`, the plugin's id and
/// `settings`, a core setting below its section; a write holds nothing else.
pub proof fn leaves_stand_in_their_place(
    plugin_id: Seq<char>,
    section: Seq<char>,
    field: Seq<char>,
    leaf: JsonModel,
)
    ensures
        leaf_object("plugin:"@ + plugin_id, field, leaf) == JsonModel::Object(
            map![
                "plugins"@ => JsonModel::Object(
                    map![
                        plugin_id => JsonModel::Object(
                            map!["settings"@ => JsonModel::Object(map![field => leaf])],
                        ),
                    ],
                ),
            ],
        ),
        (forall|id: Seq<char>| section != #[trigger] ("plugin:"@ + id)) ==> leaf_object(
            section,
            field,
            leaf,
        ) == JsonModel::Object(map![section => JsonModel::Object(map![field => leaf])]),
{
    plugin_sections_carry_the_prefix(plugin_id, section);
}

/// A plugin's setting is read below `plugins`, the plugin's id and `settings`,
/// a core setting below its section.
pub proof fn values_are_read_in_their_place(
    root: Map<Seq<char>, JsonModel>,
    plugins: Map<Seq<char>, JsonModel>,
    plugin: Map<Seq<char>, JsonModel>,
    fields: Map<Seq<char>, JsonModel>,
    plugin_id: Seq<char>,
    section: Seq<char>,
    field: Seq<char>,
)
    ensures
        root.contains_key("plugins"@) && root["plugins"@] == JsonModel::Object(plugins)
            && plugins.contains_key(plugin_id) && plugins[plugin_id] == JsonModel::Object(plugin)
            && plugin.contains_key("settings"@) && plugin["settings"@] == JsonModel::Object(fields)
            ==> value_at(JsonModel::Object(root), "plugin:"@ + plugin_id, field) == (
        if fields.contains_key(field) {
            Some(fields[field])
        } else {
            None
        }),
        (forall|id: Seq<char>| section != #[trigger] ("plugin:"@ + id)) && root.contains_key(
            section,
        ) && root[section] == JsonModel::Object(fields) ==> value_at(
            JsonModel::Object(root),
            section,
            field,
        ) == (if fields.contains_key(field) {
            Some(fields[field])
        } else {
            None
        }),
        (forall|id: Seq<char>| section != #[trigger] ("plugin:"@ + id)) && !root.contains_key(
            section,
        ) ==> value_at(JsonModel::Object(root), section, field) is None,
        !root.contains_key("plugins"@) ==> value_at(
            JsonModel::Object(root),
            "plugin:"@ + plugin_id,
            field,
        ) is None,
{
    plugin_sections_carry_the_prefix(plugin_id, section);
}

/// What a patch writes in a plugin's section stands below `plugins`, the
/// plugin's id and `settings` after the expansion: every field of it, with its
/// value. Where the patch wrote there already, the section's fields are laid
/// over what it wrote, and the other fields stay.
pub proof fn expansion_moves_every_field(
    patch: Map<Seq<char>, JsonModel>,
    id: Seq<char>,
    fields: Map<Seq<char>, JsonModel>,
    field: Seq<char>,
)
    requires
        patch.contains_key("plugin:"@ + id),
        patch["plugin:"@ + id] == JsonModel::Object(fields),
        fields.contains_key(field),
    ensures
        !patch.contains_key("plugins"@) ==> value_at(
            expanded(JsonModel::Object(patch)),
            "plugin:"@ + id,
            field,
        ) == Some(fields[field]),
        value_at(expanded(JsonModel::Object(patch)), "plugin:"@ + id, field) is Some,
        value_at(JsonModel::Object(patch), "plugin:"@ + id, field) is None ==> value_at(
            expanded(JsonModel::Object(patch)),
            "plugin:"@ + id,
            field,
        ) == Some(fields[field]),
        !(fields[field] is Object) ==> value_at(
            expanded(JsonModel::Object(patch)),
            "plugin:"@ + id,
            field,
        ) == Some(fields[field]),
{
    expansion_moves_settings(patch, id, field);
    plugin_sections_carry_the_prefix(id, "plugin:"@ + id);
    assert(fields != Map::<Seq<char>, JsonModel>::empty());
    assert(virtual_settings(patch, id) == Some(JsonModel::Object(fields)));
    reveal_with_fuel(json::merged, 2);
}

/// What a patch wrote below `plugins` and no section of a plugin writes over
/// stays as it was, and no section of a plugin is left.
pub proof fn expansion_keeps_the_rest(
    patch: Map<Seq<char>, JsonModel>,
    id: Seq<char>,
    field: Seq<char>,
    name: Seq<char>,
)
    ensures
        (patch.contains_key("plugin:"@ + id) ==> !(patch["plugin:"@ + id] is Object
            && patch["plugin:"@ + id]->Object_0.contains_key(field))) ==> value_at(
            expanded(JsonModel::Object(patch)),
            "plugin:"@ + id,
            field,
        ) == value_at(JsonModel::Object(patch), "plugin:"@ + id, field),
        expanded(JsonModel::Object(patch)) matches JsonModel::Object(out) && !out.contains_key(
            "plugin:"@ + id,
        ) && (name != "plugins"@ && (forall|any: Seq<char>| name != #[trigger] ("plugin:"@ + any))
            ==> out.contains_key(name) == patch.contains_key(name) && (patch.contains_key(name)
            ==> out[name] == patch[name])),
{
    expansion_moves_settings(patch, id, field);
    plugin_sections_carry_the_prefix(id, name);
    reveal_strlit("plugins");
    reveal_strlit("plugin:");
    let section = "plugin:"@ + id;
    assert("plugins"@[6] == 's' && "plugin:"@[6] == ':');
    assert(section[6] == ':');
    assert(section != "plugins"@);
    expansion_keeps_core_sections(patch, section);
    if name != "plugins"@ {
        expansion_keeps_core_sections(patch, name);
    }
}

/// The fields that plugins contribute come plugin by plugin: none from a plugin
/// that does not take part, and from one that does a field for each of its
/// settings, in the order of the manifest.
pub proof fn schemas_come_plugin_by_plugin(
    a: Seq<LoadedPlugin>,
    b: Seq<LoadedPlugin>,
    plugin: LoadedPlugin,
)
    ensures
        contributed_in(a + b) == contributed_in(a) + contributed_in(b),
        !(plugin.enabled && plugin.granted) ==> contributed_in(seq![plugin]).len() == 0,
        plugin.enabled && plugin.granted ==> ({
            let fields = contributed_in(seq![plugin]);
            let settings = plugin.manifest.settings@;
            &&& fields.len() == settings.len()
            &&& forall|j: int|
                0 <= j < settings.len() ==> (#[trigger] fields[j]).section == "plugin:"@
                    + plugin.manifest.id@ && fields[j].field == settings[j].key@ && fields[j].label
                    == settings[j].label@ && fields[j].description == settings[j].description@
                    && fields[j].category == "Plugins"@ && fields[j].widget == widget_model(
                    settings[j].widget,
                ) && fields[j].web_write == WebWritePolicy::Allow && !fields[j].profile_overridable
                    && fields[j].validation == ValidationKind::Unchecked && !fields[j].advanced
        }),
    decreases b.len(),
{
    reveal_with_fuel(contributed_in, 2);
    assert(seq![plugin].drop_last() =~= Seq::<LoadedPlugin>::empty());
    if b.len() == 0 {
        assert(a + b =~= a);
        assert(contributed_in(a) + contributed_in(b) =~= contributed_in(a));
    } else {
        assert((a + b).drop_last() =~= a + b.drop_last());
        schemas_come_plugin_by_plugin(a, b.drop_last(), plugin);
        assert(contributed_in(a + b) =~= contributed_in(a) + contributed_in(b));
    }
}

/// The schema is complete: for every plugin that takes part and every setting
/// of its manifest it holds a field in the plugin's section under the setting's
/// key, with the setting's label, description and widget.
pub proof fn schemas_hold_every_setting(plugins: Seq<LoadedPlugin>, i: int, j: int)
    requires
        0 <= i < plugins.len(),
        plugins[i].enabled,
        plugins[i].granted,
        0 <= j < plugins[i].manifest.settings.len(),
    ensures
        exists|n: int|
            0 <= n < contributed_in(plugins).len() && (#[trigger] contributed_in(plugins)[n]).section
                == "plugin:"@ + plugins[i].manifest.id@ && contributed_in(plugins)[n].field
                == plugins[i].manifest.settings@[j].key@ && contributed_in(plugins)[n].label
                == plugins[i].manifest.settings@[j].label@ && contributed_in(plugins)[n].description
                == plugins[i].manifest.settings@[j].description@ && contributed_in(plugins)[n].widget
                == widget_model(plugins[i].manifest.settings@[j].widget),
{
    let before = plugins.take(i);
    let own = seq![plugins[i]];
    let after = plugins.skip(i + 1);
    assert(plugins =~= before + own + after);
    schemas_come_plugin_by_plugin(before + own, after, plugins[i]);
    schemas_come_plugin_by_plugin(before, own, plugins[i]);
    let n = contributed_in(before).len() + j;
    assert(contributed_in(plugins)[n] == contributed_in(own)[j]);
}

/// A toggle, a text and a number are edited as such, the number within its
/// bounds; a select offers its values, all and in order, each shown as itself.
pub proof fn widgets_edit_what_is_declared(widget: SettingWidget)
    ensures
        widget is Toggle <==> widget_model(widget) is Toggle,
        widget is Text <==> widget_model(widget) == (WidgetModel::Text {
            multiline: false,
            mono: false,
        }),
        widget matches SettingWidget::Number { min, max, .. } ==> widget_model(widget) == (
        WidgetModel::Number { min, max }),
        widget matches SettingWidget::Select { options: listed } ==> (widget_model(
            widget,
        ) matches WidgetModel::Select { options } && options.len() == listed.len() && forall|i: int|
            0 <= i < listed.len() ==> #[trigger] options[i] == (listed@[i]@, listed@[i]@)),
{
}

/// A widget starts as off, empty, at its lower bound or at its first value.
pub proof fn widgets_start_at_zero(widget: SettingWidget)
    ensures
        widget is Toggle ==> widget_zero(widget) == JsonModel::Bool(false),
        widget is Text ==> widget_zero(widget) == JsonModel::Text(Seq::empty()),
        widget matches SettingWidget::Number { start, .. } ==> widget_zero(widget) == start@,
        widget matches SettingWidget::Select { options } ==> (options.len() > 0 ==> widget_zero(
            widget,
        ) == JsonModel::Text(options@[0]@)) && (options.len() == 0 ==> widget_zero(widget)
            == JsonModel::Text(Seq::empty())),
{
    assert(seq![] =~= Seq::<char>::empty());
}

/// The defaults that plugins ask for in a setting come plugin by plugin, none
/// from the owner and none from a plugin that does not take part.
pub proof fn overrides_come_plugin_by_plugin(
    a: Seq<LoadedPlugin>,
    b: Seq<LoadedPlugin>,
    plugin: LoadedPlugin,
    owner: Seq<char>,
    target: Seq<char>,
)
    ensures
        overrides_in(a + b, owner, target) == overrides_in(a, owner, target) + overrides_in(
            b,
            owner,
            target,
        ),
        plugin.manifest.id@ == owner || !(plugin.enabled && plugin.granted) ==> overrides_in(
            seq![plugin],
            owner,
            target,
        ).len() == 0,
        plugin.manifest.id@ != owner && plugin.enabled && plugin.granted ==> overrides_in(
            seq![plugin],
            owner,
            target,
        ) == overrides_by(plugin.manifest.id@, plugin.manifest.setting_defaults@, target),
    decreases b.len(),
{
    reveal_with_fuel(overrides_in, 2);
    assert(seq![plugin].drop_last() =~= Seq::<LoadedPlugin>::empty());
    assert(Seq::<OverrideModel>::empty() + overrides_by(
        plugin.manifest.id@,
        plugin.manifest.setting_defaults@,
        target,
    ) =~= overrides_by(plugin.manifest.id@, plugin.manifest.setting_defaults@, target));
    if b.len() == 0 {
        assert(a + b =~= a);
        assert(overrides_in(a, owner, target) + overrides_in(b, owner, target) =~= overrides_in(
            a,
            owner,
            target,
        ));
    } else {
        assert((a + b).drop_last() =~= a + b.drop_last());
        overrides_come_plugin_by_plugin(a, b.drop_last(), plugin, owner, target);
        assert(overrides_in(a + b, owner, target) =~= overrides_in(a, owner, target)
            + overrides_in(b, owner, target));
    }
}

/// Of the defaults of one plugin those for the setting count, each with its
/// priority and its value, in the order of the manifest.
pub proof fn overrides_come_default_by_default(
    plugin: Seq<char>,
    a: Seq<SettingDefault>,
    b: Seq<SettingDefault>,
    given: SettingDefault,
    target: Seq<char>,
)
    ensures
        overrides_by(plugin, a + b, target) == overrides_by(plugin, a, target) + overrides_by(
            plugin,
            b,
            target,
        ),
        given.target@ != target ==> overrides_by(plugin, seq![given], target).len() == 0,
        given.target@ == target ==> overrides_by(plugin, seq![given], target) == seq![
            OverrideModel { plugin, priority: given.priority, value: toml_json(given.value) },
        ],
        toml_contents(given.value) matches Some(value) ==> toml_json(given.value) == value,
        toml_contents(given.value) is None ==> toml_json(given.value) is Null,
    decreases b.len(),
{
    reveal_with_fuel(overrides_by, 2);
    assert(seq![given].drop_last() =~= Seq::<SettingDefault>::empty());
    if given.target@ == target {
        assert(overrides_by(plugin, seq![given], target) =~= seq![
            OverrideModel { plugin, priority: given.priority, value: toml_json(given.value) },
        ]);
    }
    if b.len() == 0 {
        assert(a + b =~= a);
        assert(overrides_by(plugin, a, target) + overrides_by(plugin, b, target) =~= overrides_by(
            plugin,
            a,
            target,
        ));
    } else {
        assert((a + b).drop_last() =~= a + b.drop_last());
        overrides_come_default_by_default(plugin, a, b.drop_last(), given, target);
        assert(overrides_by(plugin, a + b, target) =~= overrides_by(plugin, a, target)
            + overrides_by(plugin, b, target));
    }
}

/// Every default that another plugin that takes part asks for in a setting
/// stands in the setting's chain, under the plugin's name and with its value.
pub proof fn chains_hold_every_override(
    plugins: Seq<LoadedPlugin>,
    plugin_id: Seq<char>,
    setting: SettingContribution,
    i: int,
    j: int,
)
    requires
        0 <= i < plugins.len(),
        plugins[i].enabled,
        plugins[i].granted,
        plugins[i].manifest.id@ != plugin_id,
        0 <= j < plugins[i].manifest.setting_defaults.len(),
        plugins[i].manifest.setting_defaults@[j].target@ == plugin_id + "."@ + setting.key@,
    ensures
        ({
            let given = plugins[i].manifest.setting_defaults@[j];
            candidate_chain(plugins, plugin_id, setting).contains(
                (CandidateModel {
                    source: SourceModel::PluginDefault {
                        plugin: plugins[i].manifest.id@,
                        priority: given.priority,
                    },
                    value: toml_json(given.value),
                }),
            )
        }),
{
    broadcast use vstd::seq_lib::group_to_multiset_ensures;

    let target = setting_target(plugin_id, setting.key@);
    let own = plugins[i].manifest.setting_defaults@;
    let id = plugins[i].manifest.id@;
    let wanted = OverrideModel {
        plugin: id,
        priority: own[j].priority,
        value: toml_json(own[j].value),
    };
    let by = overrides_by(id, own, target);
    assert(own =~= own.take(j) + seq![own[j]] + own.skip(j + 1));
    overrides_come_default_by_default(
        id,
        own.take(j) + seq![own[j]],
        own.skip(j + 1),
        own[j],
        target,
    );
    overrides_come_default_by_default(id, own.take(j), seq![own[j]], own[j], target);
    let p = overrides_by(id, own.take(j), target).len() as int;
    assert(by[p] == wanted);
    assert(plugins =~= plugins.take(i) + seq![plugins[i]] + plugins.skip(i + 1));
    overrides_come_plugin_by_plugin(
        plugins.take(i) + seq![plugins[i]],
        plugins.skip(i + 1),
        plugins[i],
        plugin_id,
        target,
    );
    overrides_come_plugin_by_plugin(
        plugins.take(i),
        seq![plugins[i]],
        plugins[i],
        plugin_id,
        target,
    );
    let rows = overrides_in(plugins, plugin_id, target);
    let q = overrides_in(plugins.take(i), plugin_id, target).len() + p;
    assert(rows[q] == wanted);
    assert(rows.contains(wanted));
    let ranked = ranked_overrides(plugins, plugin_id, target);
    sorting::sorting_keeps_rows::<SettingOverride>(rows);
    assert(rows.to_multiset().count(wanted) > 0);
    assert(ranked.to_multiset().count(wanted) > 0);
    assert(ranked.contains(wanted));
    let k = choose|k: int| 0 <= k < ranked.len() && ranked[k] == wanted;
    let user = user_candidates(plugins, plugin_id, setting.key@);
    let chain = candidate_chain(plugins, plugin_id, setting);
    assert(chain[user.len() + k] == override_candidate(wanted));
}

/// A chain names where each value comes from, in the order in which the sources
/// count: the user's value, if there is one, comes first; the defaults of other
/// plugins follow, the higher priority first and within one priority by the
/// plugin's id; the manifest's default, if there is one, is next to last; and
/// the widget's zero value is last.
pub proof fn chains_come_in_order_of_precedence(
    plugins: Seq<LoadedPlugin>,
    plugin_id: Seq<char>,
    setting: SettingContribution,
    at: int,
    i: int,
    j: int,
)
    requires
        0 <= at < plugins.len(),
        plugins[at].manifest.id@ == plugin_id,
        forall|k: int| 0 <= k < at ==> (#[trigger] plugins[k]).manifest.id@ != plugin_id,
    ensures
        ({
            let chain = candidate_chain(plugins, plugin_id, setting);
            let r = resolved(plugins, plugin_id, setting);
            let users = plugins[at].settings@.contains_key(setting.key@);
            let first = if users {
                1
            } else {
                0int
            };
            let last = chain.len() - (if setting.default is Some {
                2int
            } else {
                1
            });
            &&& r.key == plugin_id + "."@ + setting.key@
            &&& r.candidates == chain
            &&& r.value == chain[0].value
            &&& r.source == chain[0].source
            &&& first <= last
            &&& users ==> chain[0] == (CandidateModel {
                source: SourceModel::UserConfig,
                value: toml_json(plugins[at].settings@[setting.key@]),
            })
            &&& setting.default matches Some(value) ==> chain[chain.len() - 2] == (CandidateModel {
                source: SourceModel::ManifestDefault,
                value: toml_json(value),
            })
            &&& chain[chain.len() - 1] == (CandidateModel {
                source: SourceModel::SchemaDefault,
                value: widget_zero(setting.widget),
            })
            &&& first <= i < last ==> chain[i].source is PluginDefault
            &&& first <= i < j < last ==> (chain[i].source->priority > chain[j].source->priority || (
            chain[i].source->priority == chain[j].source->priority && !text::text_lt(
                chain[j].source->plugin,
                chain[i].source->plugin,
            )))
        }),
{
    registry::lookups_find_the_first(plugins, plugin_id, at);
    let target = setting_target(plugin_id, setting.key@);
    let rows = overrides_in(plugins, plugin_id, target);
    let ranked = ranked_overrides(plugins, plugin_id, target);
    sorting::sorting_orders_rows::<SettingOverride>(rows);
    let user = user_candidates(plugins, plugin_id, setting.key@);
    let chain = candidate_chain(plugins, plugin_id, setting);
    let last = chain.len() - (if setting.default is Some {
        2int
    } else {
        1
    });
    assert(last == user.len() + ranked.len());
    if user.len() <= i < last {
        assert(chain[i] == override_candidate(ranked[i - user.len()]));
    }
    if user.len() <= i < j < last {
        assert(chain[j] == override_candidate(ranked[j - user.len()]));
        assert(!sorting::key_lt(
            <SettingOverride as Ranked>::key_of(ranked[j - user.len()]),
            <SettingOverride as Ranked>::key_of(ranked[i - user.len()]),
        ));
    }
}

proof fn overrides_by_were_asked(plugin: Seq<char>, defaults: Seq<SettingDefault>, target: Seq<char>)
    ensures
        forall|i: int|
            0 <= i < overrides_by(plugin, defaults, target).len() ==> exists|k: int|
                0 <= k < defaults.len() && (#[trigger] defaults[k]).target@ == target
                    && #[trigger] overrides_by(plugin, defaults, target)[i] == (OverrideModel {
                    plugin,
                    priority: defaults[k].priority,
                    value: toml_json(defaults[k].value),
                }),
    decreases defaults.len(),
{
    if defaults.len() > 0 {
        let head = defaults.drop_last();
        let before = overrides_by(plugin, head, target);
        let all = overrides_by(plugin, defaults, target);
        overrides_by_were_asked(plugin, head, target);
        assert forall|i: int| 0 <= i < all.len() implies exists|k: int|
            0 <= k < defaults.len() && (#[trigger] defaults[k]).target@ == target
                && #[trigger] all[i] == (OverrideModel {
                plugin,
                priority: defaults[k].priority,
                value: toml_json(defaults[k].value),
            }) by {
            if i < before.len() {
                let k = choose|k: int|
                    0 <= k < head.len() && (#[trigger] head[k]).target@ == target && before[i] == (
                    OverrideModel {
                        plugin,
                        priority: head[k].priority,
                        value: toml_json(head[k].value),
                    });
                assert(defaults[k] == head[k]);
            } else {
                assert(defaults[defaults.len() - 1].target@ == target);
            }
        }
    }
}

/// Every setting of every plugin that takes part is resolved, plugin by plugin
/// and in the order of the manifests, and no other.
pub proof fn settings_resolve_plugin_by_plugin(
    a: Seq<LoadedPlugin>,
    b: Seq<LoadedPlugin>,
    plugin: LoadedPlugin,
    all: Seq<LoadedPlugin>,
)
    ensures
        resolved_in(a + b, all) == resolved_in(a, all) + resolved_in(b, all),
        !(plugin.enabled && plugin.granted) ==> resolved_in(seq![plugin], all).len() == 0,
        plugin.enabled && plugin.granted ==> ({
            let out = resolved_in(seq![plugin], all);
            let settings = plugin.manifest.settings@;
            &&& out.len() == settings.len()
            &&& forall|j: int|
                0 <= j < settings.len() ==> #[trigger] out[j] == resolved(
                    all,
                    plugin.manifest.id@,
                    settings[j],
                )
        }),
    decreases b.len(),
{
    reveal_with_fuel(resolved_in, 2);
    assert(seq![plugin].drop_last() =~= Seq::<LoadedPlugin>::empty());
    if b.len() == 0 {
        assert(a + b =~= a);
        assert(resolved_in(a, all) + resolved_in(b, all) =~= resolved_in(a, all));
    } else {
        assert((a + b).drop_last() =~= a + b.drop_last());
        settings_resolve_plugin_by_plugin(a, b.drop_last(), plugin, all);
        assert(resolved_in(a + b, all) =~= resolved_in(a, all) + resolved_in(b, all));
    }
}

proof fn first_setting(settings: Seq<SettingContribution>, key: Seq<char>, k: int)
    requires
        0 <= k < settings.len(),
        settings[k].key@ == key,
        forall|j: int| 0 <= j < k ==> (#[trigger] settings[j]).key@ != key,
    ensures
        find_setting(settings, key) == Some(settings[k]),
    decreases settings.len(),
{
    if k > 0 {
        assert(settings[0].key@ != key);
        let tail = settings.drop_first();
        assert forall|j: int| 0 <= j < k - 1 implies (#[trigger] tail[j]).key@ != key by {
            assert(settings[j + 1].key@ != key);
        }
        first_setting(tail, key, k - 1);
    }
}

/// A setting is resolved exactly where a plugin that takes part declares it.
pub proof fn declared_settings_resolve(
    plugins: Seq<LoadedPlugin>,
    plugin_id: Seq<char>,
    key: Seq<char>,
    at: int,
    k: int,
)
    requires
        0 <= at < plugins.len(),
        plugins[at].manifest.id@ == plugin_id,
        forall|j: int| 0 <= j < at ==> (#[trigger] plugins[j]).manifest.id@ != plugin_id,
    ensures
        0 <= k < plugins[at].manifest.settings.len() && plugins[at].manifest.settings@[k].key@ == key
            && (forall|j: int|
            0 <= j < k ==> (#[trigger] plugins[at].manifest.settings@[j]).key@ != key) && (
        plugins[at].enabled && plugins[at].granted) ==> resolved_setting(plugins, plugin_id, key)
            == Some(resolved(plugins, plugin_id, plugins[at].manifest.settings@[k])),
        !(plugins[at].enabled && plugins[at].granted) ==> resolved_setting(plugins, plugin_id, key)
            is None,
        (forall|j: int|
            0 <= j < plugins[at].manifest.settings.len() ==> (
            #[trigger] plugins[at].manifest.settings@[j]).key@ != key) ==> resolved_setting(
            plugins,
            plugin_id,
            key,
        ) is None,
{
    registry::lookups_find_the_first(plugins, plugin_id, at);
    let settings = plugins[at].manifest.settings@;
    if 0 <= k < settings.len() && settings[k].key@ == key && (forall|j: int|
        0 <= j < k ==> (#[trigger] settings[j]).key@ != key) {
        first_setting(settings, key, k);
    }
    find_setting_is_listed(settings, key);
}

/// A plugin that nobody knows has no setting.
pub proof fn unknown_settings_do_not_resolve(
    plugins: Seq<LoadedPlugin>,
    plugin_id: Seq<char>,
    key: Seq<char>,
)
    requires
        forall|j: int| 0 <= j < plugins.len() ==> (#[trigger] plugins[j]).manifest.id@ != plugin_id,
    ensures
        resolved_setting(plugins, plugin_id, key) is None,
{
    registry::unknown_plugins_are_not_found(plugins, plugin_id);
}

/// Whether a plugin other than the owner, which takes part, asks for a default
/// in a setting.
pub open spec fn asks_for(
    plugins: Seq<LoadedPlugin>,
    owner: Seq<char>,
    target: Seq<char>,
    given: OverrideModel,
) -> bool {
    exists|m: int, k: int|
        0 <= m < plugins.len() && plugins[m].enabled && plugins[m].granted
            && plugins[m].manifest.id@ != owner && plugins[m].manifest.id@ == given.plugin && 0 <= k
            < plugins[m].manifest.setting_defaults.len() && (
        #[trigger] plugins[m].manifest.setting_defaults@[k]).target@ == target
            && plugins[m].manifest.setting_defaults@[k].priority == given.priority && toml_json(
            plugins[m].manifest.setting_defaults@[k].value,
        ) == given.value
}

proof fn overrides_in_were_asked(plugins: Seq<LoadedPlugin>, owner: Seq<char>, target: Seq<char>)
    ensures
        forall|i: int|
            0 <= i < overrides_in(plugins, owner, target).len() ==> asks_for(
                plugins,
                owner,
                target,
                #[trigger] overrides_in(plugins, owner, target)[i],
            ),
    decreases plugins.len(),
{
    if plugins.len() > 0 {
        let head = plugins.drop_last();
        let last = plugins.last();
        let before = overrides_in(head, owner, target);
        let all = overrides_in(plugins, owner, target);
        let by = overrides_by(last.manifest.id@, last.manifest.setting_defaults@, target);
        overrides_in_were_asked(head, owner, target);
        overrides_by_were_asked(last.manifest.id@, last.manifest.setting_defaults@, target);
        assert forall|i: int| 0 <= i < all.len() implies asks_for(
            plugins,
            owner,
            target,
            #[trigger] all[i],
        ) by {
            if i < before.len() {
                assert(all[i] == before[i]);
                assert(asks_for(head, owner, target, before[i]));
                let (m, k) = choose|m: int, k: int|
                    0 <= m < head.len() && head[m].enabled && head[m].granted
                        && head[m].manifest.id@ != owner && head[m].manifest.id@ == before[i].plugin
                        && 0 <= k < head[m].manifest.setting_defaults.len() && (
                    #[trigger] head[m].manifest.setting_defaults@[k]).target@ == target
                        && head[m].manifest.setting_defaults@[k].priority == before[i].priority
                        && toml_json(head[m].manifest.setting_defaults@[k].value)
                        == before[i].value;
                assert(plugins[m].manifest.setting_defaults@[k].target@ == target);
            } else {
                assert(all[i] == by[i - before.len()]);
                let defaults = last.manifest.setting_defaults@;
                let k = choose|k: int|
                    0 <= k < defaults.len() && (#[trigger] defaults[k]).target@ == target
                        && by[i - before.len()] == (OverrideModel {
                        plugin: last.manifest.id@,
                        priority: defaults[k].priority,
                        value: toml_json(defaults[k].value),
                    });
                assert(plugins[plugins.len() - 1].manifest.setting_defaults@[k].target@ == target);
            }
        }
    }
}

/// A default of another plugin that stands in a chain was asked for: by a
/// plugin that takes part and does not own the setting, with that priority and
/// that value.
pub proof fn chain_overrides_were_asked(
    plugins: Seq<LoadedPlugin>,
    plugin_id: Seq<char>,
    setting: SettingContribution,
    i: int,
)
    requires
        0 <= i < candidate_chain(plugins, plugin_id, setting).len(),
        candidate_chain(plugins, plugin_id, setting)[i].source is PluginDefault,
    ensures
        ({
            let c = candidate_chain(plugins, plugin_id, setting)[i];
            asks_for(
                plugins,
                plugin_id,
                plugin_id + "."@ + setting.key@,
                OverrideModel {
                    plugin: c.source->plugin,
                    priority: c.source->priority,
                    value: c.value,
                },
            )
        }),
{
    broadcast use vstd::seq_lib::group_to_multiset_ensures;

    let target = setting_target(plugin_id, setting.key@);
    let rows = overrides_in(plugins, plugin_id, target);
    let ranked = ranked_overrides(plugins, plugin_id, target);
    overrides_in_were_asked(plugins, plugin_id, target);
    sorting::sorting_keeps_rows::<SettingOverride>(rows);
    let user = user_candidates(plugins, plugin_id, setting.key@);
    let at = i - user.len();
    let chain = candidate_chain(plugins, plugin_id, setting);
    assert(0 <= at < ranked.len());
    assert(chain[i] == override_candidate(ranked[at]));
    assert(ranked.contains(ranked[at]));
    assert(ranked.to_multiset().count(ranked[at]) > 0);
    assert(rows.to_multiset().count(ranked[at]) > 0);
    assert(rows.contains(ranked[at]));
    let n = choose|n: int| 0 <= n < rows.len() && rows[n] == ranked[at];
    assert(asks_for(plugins, plugin_id, target, rows[n]));
}

/// What contracts say of schema fields are all their parts, in order.
pub proof fn descriptor_models_are_faithful(
    fields: Seq<FieldDescriptor>,
    i: int,
    min: Option<i64>,
    max: Option<i64>,
    multiline: bool,
    mono: bool,
    options: Vec<SelectOption>,
    k: int,
)
    ensures
        descriptor_models(fields).len() == fields.len(),
        0 <= i < fields.len() ==> ({
            let model = descriptor_models(fields)[i];
            let field = fields[i];
            &&& model.section == field.section@
            &&& model.field == field.field@
            &&& model.category == field.category@
            &&& model.label == field.label@
            &&& model.description == field.description@
            &&& model.widget == field.widget@
            &&& model.web_write == field.web_write
            &&& model.profile_overridable == field.profile_overridable
            &&& model.validation == field.validation
            &&& model.advanced == field.advanced
        }),
        WidgetKind::Toggle@ is Toggle,
        (WidgetKind::Text { multiline, mono })@ == (WidgetModel::Text { multiline, mono }),
        (WidgetKind::Number { min, max })@ == (WidgetModel::Number { min, max }),
        (WidgetKind::Select { options })@ matches WidgetModel::Select { options: shown }
            && shown.len() == options.len() && (0 <= k < options.len() ==> shown[k].0
            == options@[k].value@ && shown[k].1 == options@[k].label@),
{
}

/// What contracts say of resolved settings are all their parts, in order.
pub proof fn resolved_models_are_faithful(
    settings: Seq<ResolvedSetting>,
    i: int,
    k: int,
    plugin: String,
    priority: i32,
    given: SettingOverride,
)
    ensures
        resolved_models(settings).len() == settings.len(),
        0 <= i < settings.len() ==> ({
            let model = resolved_models(settings)[i];
            let setting = settings[i];
            &&& model.key == setting.key@
            &&& model.value == setting.value@
            &&& model.source == setting.source@
            &&& model.candidates.len() == setting.candidates.len()
            &&& 0 <= k < setting.candidates.len() ==> model.candidates[k].source
                == setting.candidates@[k].source@ && model.candidates[k].value
                == setting.candidates@[k].value@
            &&& optional_resolved(Some(setting)) == Some(model)
        }),
        optional_resolved(None) is None,
        SettingSource::UserConfig@ is UserConfig,
        (SettingSource::PluginDefault { plugin, priority })@ == (SourceModel::PluginDefault {
            plugin: plugin@,
            priority,
        }),
        SettingSource::ManifestDefault@ is ManifestDefault,
        SettingSource::SchemaDefault@ is SchemaDefault,
        SettingSource::CoreDefault@ is CoreDefault,
        given.model().plugin == given.plugin@ && given.model().priority == given.priority
            && given.model().value == given.value@,
{
}

} // verus!
