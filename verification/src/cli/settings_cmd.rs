//! `aoe settings`: inspect the settings surface. `explain` shows the full
//! resolution chain for a setting (user value, cross-plugin default override,
//! manifest default, widget default), the CLI twin of
//! `GET /api/settings/resolved`.

use vstd::prelude::*;

use crate::json;
use crate::json::render_json;
use crate::json::Json;
use crate::json::JsonModel;
use crate::plugin::registry::LoadedPlugin;
use crate::plugin::registry::PluginRegistry;
use crate::plugin::settings;
use crate::plugin::settings::resolve;
use crate::plugin::settings::resolve_all;
use crate::plugin::settings::CandidateModel;
use crate::plugin::settings::ResolvedModel;
use crate::plugin::settings::ResolvedSetting;
use crate::plugin::settings::SettingCandidate;
use crate::plugin::settings::SettingSource;
use crate::plugin::settings::SourceModel;
use crate::text;
use crate::text::chars_of;
use crate::text::concat2;
use crate::text::concat3;
use crate::text::debug_of;
use crate::text::decimal_of_i32;
use crate::text::same_text;
use crate::text::text_of;

verus! {

/// What `aoe settings` was asked.
#[derive(Debug)]
pub enum SettingsCommands {
    /// Explain where a setting's effective value comes from
    Explain {
        /// Fully qualified plugin setting key, `<plugin-id>.<key>`.
        /// Omit to list every plugin setting with its winning source.
        key: Option<String>,
    },
}

/// How a source is shown.
pub open spec fn label_of(source: SourceModel) -> Seq<char> {
    match source {
        SourceModel::UserConfig => "user config (config.toml)"@,
        SourceModel::PluginDefault { plugin, priority } => "default override by plugin "@ + plugin
            + (" (priority "@ + text::decimal_int(priority as int) + ")"@),
        SourceModel::ManifestDefault => "owning plugin's manifest default"@,
        SourceModel::SchemaDefault => "widget default"@,
        SourceModel::CoreDefault => "built-in default"@,
    }
}

fn source_label(source: &SettingSource) -> (r: String)
    ensures
        r@ == label_of(source@),
{
    match source {
        SettingSource::UserConfig => "user config (config.toml)".to_owned(),
        SettingSource::PluginDefault { plugin, priority } => {
            let shown = decimal_of_i32(*priority);
            let tail = concat3(" (priority ", shown.as_str(), ")");
            concat3("default override by plugin ", plugin.as_str(), tail.as_str())
        },
        SettingSource::ManifestDefault => "owning plugin's manifest default".to_owned(),
        SettingSource::SchemaDefault => "widget default".to_owned(),
        SettingSource::CoreDefault => "built-in default".to_owned(),
    }
}

/// The line `<key> = <value>`.
pub open spec fn value_line(key: Seq<char>, value: JsonModel) -> Seq<char> {
    key + " = "@ + json::text_of_json(value)
}

fn show_value(key: &str, value: &Json) -> (r: String)
    ensures
        r@ == value_line(key@, value@),
{
    concat3(key, " = ", render_json(value).as_str())
}

/// The line of a setting in the list of all.
pub open spec fn list_line(setting: ResolvedModel) -> Seq<char> {
    value_line(setting.key, setting.value) + ("  ["@ + label_of(setting.source) + "]"@)
}

/// The list of all settings.
pub open spec fn list_lines(settings: Seq<ResolvedModel>) -> Seq<Seq<char>> {
    if settings.len() == 0 {
        seq!["No active plugin settings."@]
    } else {
        settings.map_values(|s: ResolvedModel| list_line(s))
    }
}

/// The line of a candidate; the first one is marked.
pub open spec fn chain_line(candidate: CandidateModel, first: bool) -> Seq<char> {
    (if first {
        "->"@
    } else {
        "  "@
    }) + " "@ + value_line(label_of(candidate.source), candidate.value)
}

/// The lines that explain one setting.
pub open spec fn explain_lines(setting: ResolvedModel) -> Seq<Seq<char>> {
    seq![
        value_line(setting.key, setting.value),
        "resolved from: "@ + label_of(setting.source),
        ""@,
        "resolution chain (first wins):"@,
    ] + Seq::new(
        setting.candidates.len(),
        |i: int| chain_line(setting.candidates[i], i == 0),
    )
}

/// The place of the last dot, or -1.
pub open spec fn last_dot(key: Seq<char>) -> int
    decreases key.len(),
{
    if key.len() == 0 {
        -1
    } else if key.last() == '.' {
        key.len() - 1
    } else {
        last_dot(key.drop_last())
    }
}

/// The first core setting with this key.
pub open spec fn find_core(core: Seq<ResolvedModel>, key: Seq<char>) -> Option<ResolvedModel>
    decreases core.len(),
{
    if core.len() == 0 {
        None
    } else if core[0].key == key {
        Some(core[0])
    } else {
        find_core(core.drop_first(), key)
    }
}

/// The setting of a key: a core setting, or one of an active plugin. The part
/// before the last dot names the section or the plugin.
pub open spec fn explained(
    core: Seq<ResolvedModel>,
    plugins: Seq<LoadedPlugin>,
    key: Seq<char>,
) -> Option<ResolvedModel> {
    match find_core(core, key) {
        Some(setting) => Some(setting),
        None => settings::resolved_setting(
            plugins,
            key.take(last_dot(key)),
            key.skip(last_dot(key) + 1),
        ),
    }
}

/// What `explain` prints, or why it fails.
pub open spec fn explanation(
    core: Seq<ResolvedModel>,
    plugins: Seq<LoadedPlugin>,
    key: Option<Seq<char>>,
) -> Result<Seq<Seq<char>>, Seq<char>> {
    match key {
        None => Ok(list_lines(settings::resolved_in(plugins, plugins))),
        Some(key) => if last_dot(key) < 0 {
            Err(
                "key must be <plugin-id>.<key> or <section>.<field>, got "@ + text::debug_text(
                    key,
                ),
            )
        } else {
            match explained(core, plugins, key) {
                Some(setting) => Ok(explain_lines(setting)),
                None => Err(
                    text::debug_text(key)
                        + " is neither a core setting nor a setting of an active plugin (is the plugin enabled and granted?)"@,
                ),
            }
        },
    }
}

/// What contracts say of printed lines.
pub open spec fn lines_model(r: Result<Vec<String>, String>) -> Result<Seq<Seq<char>>, Seq<char>> {
    match r {
        Ok(lines) => Ok(text::texts(lines@)),
        Err(message) => Err(message@),
    }
}

/// Run the command: the lines to print, or why it fails. `core` holds the
/// core settings, resolved, by `<section>.<field>`.
pub fn run(
    command: SettingsCommands,
    core: &Vec<ResolvedSetting>,
    registry: &PluginRegistry,
) -> (r: Result<Vec<String>, String>)
    ensures
        command matches SettingsCommands::Explain { key } && lines_model(r) == explanation(
            settings::resolved_models(core@),
            registry.plugins@,
            text::optional_text(key),
        ),
{
    match command {
        SettingsCommands::Explain { key } => run_explain(&key, core, registry),
    }
}

fn list_all(resolved: &Vec<ResolvedSetting>) -> (r: Vec<String>)
    ensures
        text::texts(r@) == list_lines(settings::resolved_models(resolved@)),
{
    let ghost all = settings::resolved_models(resolved@);
    let mut lines: Vec<String> = Vec::new();
    if resolved.len() == 0 {
        lines.push("No active plugin settings.".to_owned());
        assert(text::texts(lines@) =~= list_lines(all));
        return lines;
    }
    let mut i: usize = 0;
    while i < resolved.len()
        invariant
            i <= resolved.len(),
            all == settings::resolved_models(resolved@),
            lines.len() == i,
            forall|j: int| 0 <= j < i ==> (#[trigger] lines@[j])@ == list_line(all[j]),
        decreases resolved.len() - i,
    {
        let setting = &resolved[i];
        let label = source_label(&setting.source);
        let tail = concat3("  [", label.as_str(), "]");
        let head = show_value(setting.key.as_str(), &setting.value);
        lines.push(concat2(head.as_str(), tail.as_str()));
        i += 1;
    }
    assert(text::texts(lines@) =~= list_lines(all));
    lines
}

fn explain_one(setting: &ResolvedSetting) -> (r: Vec<String>)
    ensures
        text::texts(r@) == explain_lines(setting@),
{
    let mut lines: Vec<String> = Vec::new();
    let ghost model = setting@;
    lines.push(show_value(setting.key.as_str(), &setting.value));
    lines.push(concat2("resolved from: ", source_label(&setting.source).as_str()));
    lines.push("".to_owned());
    lines.push("resolution chain (first wins):".to_owned());
    let ghost wanted = explain_lines(model);
    let mut i: usize = 0;
    while i < setting.candidates.len()
        invariant
            i <= setting.candidates.len(),
            model == setting@,
            wanted == explain_lines(model),
            lines.len() == 4 + i,
            forall|j: int| 0 <= j < lines.len() ==> (#[trigger] lines@[j])@ == wanted[j],
        decreases setting.candidates.len() - i,
    {
        let candidate: &SettingCandidate = &setting.candidates[i];
        let marker = if i == 0 {
            "->"
        } else {
            "  "
        };
        let label = source_label(&candidate.source);
        let shown = show_value(label.as_str(), &candidate.value);
        lines.push(concat3(marker, " ", shown.as_str()));
        assert(model.candidates[i as int] == candidate@);
        assert(wanted[4 + i] == chain_line(model.candidates[i as int], i == 0));
        i += 1;
    }
    assert(text::texts(lines@) =~= wanted);
    lines
}

fn find_last_dot(chars: &Vec<char>) -> (r: Option<usize>)
    ensures
        match r {
            Some(at) => last_dot(chars@) == at && at < chars.len(),
            None => last_dot(chars@) == -1,
        },
{
    let mut n: usize = chars.len();
    assert(chars@.take(n as int) =~= chars@);
    while n > 0
        invariant
            n <= chars.len(),
            last_dot(chars@) == last_dot(chars@.take(n as int)),
        decreases n,
    {
        assert(chars@.take(n as int).drop_last() =~= chars@.take(n - 1));
        if chars[n - 1] == '.' {
            return Some(n - 1);
        }
        n -= 1;
    }
    None
}

fn run_explain(
    key: &Option<String>,
    core: &Vec<ResolvedSetting>,
    registry: &PluginRegistry,
) -> (r: Result<Vec<String>, String>)
    ensures
        lines_model(r) == explanation(
            settings::resolved_models(core@),
            registry.plugins@,
            text::optional_text(*key),
        ),
{
    let wanted = match key {
        None => {
            return Ok(list_all(&resolve_all(registry)));
        },
        Some(key) => key.as_str(),
    };
    let chars = chars_of(wanted);
    let dot = match find_last_dot(&chars) {
        Some(dot) => dot,
        None => {
            return Err(
                concat2(
                    "key must be <plugin-id>.<key> or <section>.<field>, got ",
                    debug_of(wanted).as_str(),
                ),
            );
        },
    };
    let ghost all = settings::resolved_models(core@);
    let mut i: usize = 0;
    assert(all.skip(0) =~= all);
    while i < core.len()
        invariant
            i <= core.len(),
            all == settings::resolved_models(core@),
            text::optional_text(*key) == Some(wanted@),
            chars@ == wanted@,
            last_dot(wanted@) == dot,
            find_core(all, wanted@) == find_core(all.skip(i as int), wanted@),
        decreases core.len() - i,
    {
        if same_text(core[i].key.as_str(), wanted) {
            assert(all.skip(i as int)[0] == core@[i as int]@);
            return Ok(explain_one(&core[i]));
        }
        assert(all.skip(i as int).drop_first() =~= all.skip(i + 1));
        i += 1;
    }
    let head = text_of(&chars, 0, dot);
    let setting_key = text_of(&chars, dot + 1, chars.len());
    assert(head@ =~= wanted@.take(dot as int));
    assert(setting_key@ =~= wanted@.skip(dot + 1));
    match resolve(registry, head.as_str(), setting_key.as_str()) {
        Some(setting) => Ok(explain_one(&setting)),
        None => Err(
            concat2(
                debug_of(wanted).as_str(),
                " is neither a core setting nor a setting of an active plugin (is the plugin enabled and granted?)",
            ),
        ),
    }
}

/// Each source is shown in its own words, the override with the plugin and the
/// priority that it has.
pub proof fn sources_are_shown(plugin: Seq<char>, priority: i32)
    ensures
        label_of(SourceModel::UserConfig) == "user config (config.toml)"@,
        label_of(SourceModel::PluginDefault { plugin, priority }) == "default override by plugin "@
            + plugin + " (priority "@ + text::decimal_int(priority as int) + ")"@,
        label_of(SourceModel::ManifestDefault) == "owning plugin's manifest default"@,
        label_of(SourceModel::SchemaDefault) == "widget default"@,
        label_of(SourceModel::CoreDefault) == "built-in default"@,
{
    assert(label_of(SourceModel::PluginDefault { plugin, priority })
        =~= "default override by plugin "@ + plugin + " (priority "@ + text::decimal_int(
        priority as int,
    ) + ")"@);
}

/// The list shows every setting on a line of its own, in order, with its key,
/// its value and where the value comes from; without a setting it says so.
pub proof fn lists_show_every_setting(settings: Seq<ResolvedModel>, i: int)
    ensures
        settings.len() == 0 ==> list_lines(settings) == seq!["No active plugin settings."@],
        settings.len() > 0 ==> list_lines(settings).len() == settings.len(),
        0 <= i < settings.len() ==> list_lines(settings)[i] == settings[i].key + " = "@
            + json::text_of_json(settings[i].value) + "  ["@ + label_of(settings[i].source) + "]"@,
{
    if 0 <= i < settings.len() {
        assert(list_line(settings[i]) =~= settings[i].key + " = "@ + json::text_of_json(
            settings[i].value,
        ) + "  ["@ + label_of(settings[i].source) + "]"@);
    }
}

/// An explanation shows the value and its source, and below them every
/// candidate of the chain, in order, the first one marked.
pub proof fn explanations_show_the_chain(setting: ResolvedModel, i: int)
    ensures
        ({
            let lines = explain_lines(setting);
            &&& lines.len() == setting.candidates.len() + 4
            &&& lines[0] == setting.key + " = "@ + json::text_of_json(setting.value)
            &&& lines[1] == "resolved from: "@ + label_of(setting.source)
            &&& lines[2].len() == 0
            &&& lines[3] == "resolution chain (first wins):"@
            &&& 0 < setting.candidates.len() ==> lines[4] == "-> "@ + label_of(
                setting.candidates[0].source,
            ) + " = "@ + json::text_of_json(setting.candidates[0].value)
            &&& 0 < i < setting.candidates.len() ==> lines[i + 4] == "   "@ + label_of(
                setting.candidates[i].source,
            ) + " = "@ + json::text_of_json(setting.candidates[i].value)
        }),
{
    reveal_strlit("");
    reveal_strlit("->");
    reveal_strlit("-> ");
    reveal_strlit(" ");
    reveal_strlit("  ");
    reveal_strlit("   ");
    assert("->"@ + " "@ =~= "-> "@);
    assert("  "@ + " "@ =~= "   "@);
    let lines = explain_lines(setting);
    if 0 < setting.candidates.len() {
        let c = setting.candidates[0];
        assert(lines[4] == chain_line(c, true));
        assert(chain_line(c, true) =~= "-> "@ + label_of(c.source) + " = "@ + json::text_of_json(
            c.value,
        ));
    }
    if 0 < i < setting.candidates.len() {
        let c = setting.candidates[i];
        assert(lines[i + 4] == chain_line(c, false));
        assert(chain_line(c, false) =~= "   "@ + label_of(c.source) + " = "@ + json::text_of_json(
            c.value,
        ));
    }
}

proof fn last_dot_is(head: Seq<char>, tail: Seq<char>)
    requires
        forall|i: int| 0 <= i < tail.len() ==> #[trigger] tail[i] != '.',
    ensures
        last_dot(head + seq!['.'] + tail) == head.len(),
    decreases tail.len(),
{
    let key = head + seq!['.'] + tail;
    if tail.len() > 0 {
        assert(key.last() == tail[tail.len() - 1]);
        assert(key.drop_last() =~= head + seq!['.'] + tail.drop_last());
        assert forall|i: int| 0 <= i < tail.drop_last().len() implies #[trigger] tail.drop_last()[i]
            != '.' by {
            assert(tail.drop_last()[i] == tail[i]);
        }
        last_dot_is(head, tail.drop_last());
    }
}

proof fn no_last_dot(key: Seq<char>)
    requires
        forall|i: int| 0 <= i < key.len() ==> #[trigger] key[i] != '.',
    ensures
        last_dot(key) == -1,
    decreases key.len(),
{
    if key.len() > 0 {
        assert(key[key.len() - 1] != '.');
        assert forall|i: int| 0 <= i < key.drop_last().len() implies #[trigger] key.drop_last()[i]
            != '.' by {
            assert(key.drop_last()[i] == key[i]);
        }
        no_last_dot(key.drop_last());
    }
}

proof fn first_core(core: Seq<ResolvedModel>, key: Seq<char>, at: int)
    requires
        0 <= at < core.len(),
        core[at].key == key,
        forall|j: int| 0 <= j < at ==> (#[trigger] core[j]).key != key,
    ensures
        find_core(core, key) == Some(core[at]),
    decreases core.len(),
{
    if at > 0 {
        assert(core[0].key != key);
        let rest = core.drop_first();
        assert forall|j: int| 0 <= j < at - 1 implies (#[trigger] rest[j]).key != key by {
            assert(core[j + 1].key != key);
        }
        first_core(rest, key, at - 1);
    }
}

proof fn no_core(core: Seq<ResolvedModel>, key: Seq<char>)
    requires
        forall|j: int| 0 <= j < core.len() ==> (#[trigger] core[j]).key != key,
    ensures
        find_core(core, key) is None,
    decreases core.len(),
{
    if core.len() > 0 {
        let rest = core.drop_first();
        assert forall|j: int| 0 <= j < rest.len() implies (#[trigger] rest[j]).key != key by {
            assert(core[j + 1].key != key);
        }
        no_core(rest, key);
    }
}

/// A key is explained as the core setting of that name, the core coming first,
/// or else as the setting behind its last dot of the plugin before it. Without
/// a dot, and where neither is there, there is nothing to explain; without a
/// key all settings are listed.
pub proof fn keys_are_explained(
    core: Seq<ResolvedModel>,
    plugins: Seq<LoadedPlugin>,
    head: Seq<char>,
    tail: Seq<char>,
    at: int,
    plain: Seq<char>,
)
    requires
        forall|i: int| 0 <= i < tail.len() ==> #[trigger] tail[i] != '.',
        forall|i: int| 0 <= i < plain.len() ==> #[trigger] plain[i] != '.',
    ensures
        ({
            let key = head + seq!['.'] + tail;
            &&& 0 <= at < core.len() && core[at].key == key && (forall|j: int|
                0 <= j < at ==> (#[trigger] core[j]).key != key) ==> explanation(
                core,
                plugins,
                Some(key),
            ) == Ok::<Seq<Seq<char>>, Seq<char>>(explain_lines(core[at]))
            &&& (forall|j: int| 0 <= j < core.len() ==> (#[trigger] core[j]).key != key) ==> (
            match settings::resolved_setting(plugins, head, tail) {
                Some(setting) => explanation(core, plugins, Some(key)) == Ok::<
                    Seq<Seq<char>>,
                    Seq<char>,
                >(explain_lines(setting)),
                None => explanation(core, plugins, Some(key)) is Err,
            })
        }),
        explanation(core, plugins, Some(plain)) is Err,
        explanation(core, plugins, None) == Ok::<Seq<Seq<char>>, Seq<char>>(
            list_lines(settings::resolved_in(plugins, plugins)),
        ),
{
    let key = head + seq!['.'] + tail;
    last_dot_is(head, tail);
    no_last_dot(plain);
    assert(key.take(head.len() as int) =~= head);
    assert(key.skip(head.len() as int + 1) =~= tail);
    if 0 <= at < core.len() && core[at].key == key && (forall|j: int|
        0 <= j < at ==> (#[trigger] core[j]).key != key) {
        first_core(core, key, at);
    }
    if forall|j: int| 0 <= j < core.len() ==> (#[trigger] core[j]).key != key {
        no_core(core, key);
    }
}

/// A key that cannot be explained is named in the refusal, with what it lacks:
/// a dot, or a setting behind it.
pub proof fn unexplained_keys_are_named(
    core: Seq<ResolvedModel>,
    plugins: Seq<LoadedPlugin>,
    key: Seq<char>,
)
    ensures
        explanation(core, plugins, Some(key)) matches Err(message) ==> ({
            let dotted = exists|i: int| 0 <= i < key.len() && #[trigger] key[i] == '.';
            &&& !dotted ==> message == "key must be <plugin-id>.<key> or <section>.<field>, got "@
                + text::debug_text(key)
            &&& dotted ==> message == text::debug_text(key)
                + " is neither a core setting nor a setting of an active plugin (is the plugin enabled and granted?)"@
        }),
{
    if exists|i: int| 0 <= i < key.len() && #[trigger] key[i] == '.' {
        let i = choose|i: int| 0 <= i < key.len() && #[trigger] key[i] == '.';
        some_last_dot(key, i);
    } else {
        no_last_dot(key);
    }
}

proof fn some_last_dot(key: Seq<char>, i: int)
    requires
        0 <= i < key.len(),
        key[i] == '.',
    ensures
        last_dot(key) >= i,
    decreases key.len(),
{
    if key.last() != '.' {
        assert(key.drop_last()[i] == '.');
        some_last_dot(key.drop_last(), i);
    }
}

/// What contracts say of printed lines are the lines, or the message of a
/// refusal.
pub proof fn line_models_are_faithful(lines: Vec<String>, message: String)
    ensures
        lines_model(Ok(lines)) == Ok::<Seq<Seq<char>>, Seq<char>>(text::texts(lines@)),
        lines_model(Err(message)) == Err::<Seq<Seq<char>>, Seq<char>>(message@),
{
}

} // verus!
