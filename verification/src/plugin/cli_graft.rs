//! Runtime grafting of plugin-contributed CLI commands into the core clap
//! tree.
//!
//! Plugin commands are appended to the core `Command` per invocation, so
//! disabling a plugin removes its verbs on the next run with no residue.
//! Dispatch first tries the core commands (core always wins); only when that
//! fails does the plugin registry claim the matched path.

use vstd::prelude::*;

use crate::json::render_json;
use crate::json;
use crate::json::Json;
use crate::json::JsonModel;
use crate::plugin::registry;
use crate::plugin::registry::LoadedPlugin;
use crate::plugin::registry::PluginRegistry;
use crate::plugin_api::manifest;
use crate::plugin_api::manifest::CliArgContribution;
use crate::plugin_api::manifest::CliArgModel;
use crate::plugin_api::manifest::CliCommandContribution;
use crate::plugin_api::manifest::CliCommandModel;
use crate::text;
use crate::text::same_text;

verus! {

/// `clap::Command`, a command with its arguments and subcommands.
#[verifier::external_type_specification]
#[verifier::external_body]
pub struct ExClapCommand(clap::Command);

/// `clap::ArgMatches`, what a parse of the command line found.
#[verifier::external_type_specification]
#[verifier::external_body]
pub struct ExClapMatches(clap::ArgMatches);

/// What contracts say of a command: its name, its description, its arguments
/// and its subcommands, in the order in which they were added.
pub struct CommandModel {
    pub name: Seq<char>,
    pub about: Option<Seq<char>>,
    pub args: Seq<CliArgModel>,
    pub subcommands: Seq<CommandModel>,
}

/// What contracts say of a parse: the subcommand that was found with what
/// belongs to it, and the first text value of each argument that has one.
pub struct MatchesModel {
    pub subcommand: Option<(Seq<char>, Box<MatchesModel>)>,
    pub values: Map<Seq<char>, Seq<char>>,
}

/// What a `clap::Command` holds.
pub uninterp spec fn command_contents(command: clap::Command) -> CommandModel;

/// What a `clap::ArgMatches` holds.
pub uninterp spec fn matches_contents(matches: clap::ArgMatches) -> MatchesModel;

/// `clap::Command::new`: a command of that name and nothing else.
#[verifier::external_body]
fn new_command(name: &str) -> (r: clap::Command)
    ensures
        command_contents(r) == (CommandModel {
            name: name@,
            about: None,
            args: seq![],
            subcommands: seq![],
        }),
{
    clap::Command::new(name.to_owned())
}

/// `clap::Command::about` sets the description and keeps the rest.
#[verifier::external_body]
fn with_about(command: clap::Command, about: &str) -> (r: clap::Command)
    ensures
        command_contents(r) == (CommandModel { about: Some(about@), ..command_contents(command) }),
{
    command.about(about.to_owned())
}

/// `clap::Command::arg` adds an argument behind the others; here one with a
/// name, a help text and the `required` setting.
#[verifier::external_body]
fn with_arg(command: clap::Command, arg: &CliArgContribution) -> (r: clap::Command)
    ensures
        command_contents(r) == (CommandModel {
            args: command_contents(command).args.push(arg@),
            ..command_contents(command)
        }),
{
    command.arg(
        clap::Arg::new(arg.name.clone()).help(arg.help.clone()).required(arg.required),
    )
}

/// `clap::Command::subcommand` adds a subcommand behind the others.
#[verifier::external_body]
fn with_subcommand(command: clap::Command, sub: clap::Command) -> (r: clap::Command)
    ensures
        command_contents(r) == with_sub(command_contents(command), command_contents(sub)),
{
    command.subcommand(sub)
}

/// What some commands hold.
pub open spec fn contents_of(commands: Seq<&clap::Command>) -> Seq<CommandModel> {
    commands.map_values(|c: &clap::Command| command_contents(*c))
}

/// `clap::Command::get_subcommands` walks the subcommands in order.
#[verifier::external_body]
fn subcommands_of(command: &clap::Command) -> (r: Vec<&clap::Command>)
    ensures
        contents_of(r@) == command_contents(*command).subcommands,
{
    command.get_subcommands().collect()
}

/// `clap::Command::get_name` gives the name.
pub assume_specification[ clap::Command::get_name ](command: &clap::Command) -> (r: &str)
    ensures
        r@ == command_contents(*command).name,
;

/// A command with one more subcommand.
pub open spec fn with_sub(command: CommandModel, sub: CommandModel) -> CommandModel {
    CommandModel { subcommands: command.subcommands.push(sub), ..command }
}

/// The place of the first subcommand of this name, or their number.
pub open spec fn sub_place(subs: Seq<CommandModel>, name: Seq<char>) -> nat
    decreases subs.len(),
{
    if subs.len() == 0 || subs[0].name == name {
        0
    } else {
        1 + sub_place(subs.drop_first(), name)
    }
}

/// A command with `leaf` added to its first subcommand of this name, which
/// moves behind the others.
pub open spec fn with_nested(
    command: CommandModel,
    group: Seq<char>,
    leaf: CommandModel,
) -> CommandModel {
    let at = sub_place(command.subcommands, group) as int;
    CommandModel {
        subcommands: command.subcommands.remove(at).push(
            with_sub(command.subcommands[at], leaf),
        ),
        ..command
    }
}

fn attach(command: clap::Command, leaf: clap::Command) -> (r: clap::Command)
    ensures
        command_contents(r) == with_sub(command_contents(command), command_contents(leaf)),
{
    with_subcommand(command, leaf)
}

/// `clap::Command::mut_subcommand` with [`attach`]: it takes the first
/// subcommand of that name out and puts what it becomes behind the others. It
/// panics where there is none.
#[verifier::external_body]
fn attach_under(command: clap::Command, group: &str, leaf: clap::Command) -> (r: clap::Command)
    requires
        sub_place(command_contents(command).subcommands, group@) < command_contents(
            command,
        ).subcommands.len(),
    ensures
        command_contents(r) == with_nested(
            command_contents(command),
            group@,
            command_contents(leaf),
        ),
{
    command.mut_subcommand(group, |sub| attach(sub, leaf))
}

/// `clap::ArgMatches::subcommand` gives the subcommand that was found.
pub assume_specification[ clap::ArgMatches::subcommand ](matches: &clap::ArgMatches) -> (r: Option<
    (&str, &clap::ArgMatches),
>)
    ensures
        match r {
            Some((name, sub)) => matches_contents(*matches).subcommand == Some(
                (name@, Box::new(matches_contents(*sub))),
            ),
            None => matches_contents(*matches).subcommand is None,
        },
;

/// `clap::ArgMatches::try_get_one` for a text. An argument that the command
/// does not define, one of another type and one that was not given all have
/// no text value.
#[verifier::external_body]
fn text_value(matches: &clap::ArgMatches, name: &str) -> (r: Option<String>)
    ensures
        match r {
            Some(value) => matches_contents(*matches).values.contains_key(name@)
                && matches_contents(*matches).values[name@] == value@,
            None => !matches_contents(*matches).values.contains_key(name@),
        },
{
    matches.try_get_one::<String>(name).ok().flatten().cloned()
}

/// One grafted command with its owning plugin.
#[derive(Debug)]
pub struct GraftedCommand {
    pub plugin_id: String,
    pub contribution: CliCommandContribution,
}

/// What contracts say of a grafted command.
pub struct GraftModel {
    pub plugin_id: Seq<char>,
    pub contribution: CliCommandModel,
}

impl View for GraftedCommand {
    type V = GraftModel;

    open spec fn view(&self) -> GraftModel {
        GraftModel { plugin_id: self.plugin_id@, contribution: self.contribution@ }
    }
}

/// The models of a list of grafted commands.
pub open spec fn graft_models(grafted: Seq<GraftedCommand>) -> Seq<GraftModel> {
    grafted.map_values(|g: GraftedCommand| g@)
}

/// Whether a path names a command of the tree: every segment is a subcommand
/// of the one before.
pub open spec fn owns_path(root: CommandModel, path: Seq<Seq<char>>) -> bool
    decreases path.len(),
{
    if path.len() == 0 {
        false
    } else {
        let at = sub_place(root.subcommands, path[0]);
        if at >= root.subcommands.len() {
            false
        } else if path.len() == 1 {
            true
        } else {
            owns_path(root.subcommands[at as int], path.drop_first())
        }
    }
}

fn find_sub(subs: &Vec<&clap::Command>, name: &str) -> (r: usize)
    ensures
        r == sub_place(contents_of(subs@), name@),
        r <= subs.len(),
{
    let ghost all = contents_of(subs@);
    let mut i: usize = 0;
    assert(all.skip(0) =~= all);
    while i < subs.len() && !same_text(subs[i].get_name(), name)
        invariant
            i <= subs.len(),
            all == contents_of(subs@),
            sub_place(all, name@) == i + sub_place(all.skip(i as int), name@),
        decreases subs.len() - i,
    {
        assert(all.skip(i as int).drop_first() =~= all.skip(i + 1));
        i += 1;
    }
    i
}

/// Core wins on the full path, not just the head: `["session", "ls"]` is
/// owned when the core `session` group already has an `ls` verb; a top-level
/// `["session"]` graft is owned because the group itself exists. A nested
/// graft under an existing group whose leaf is free (`["session", "archive"]`)
/// is allowed.
pub fn core_owns_path(root: &clap::Command, path: &Vec<String>) -> (r: bool)
    ensures
        r == owns_path(command_contents(*root), text::texts(path@)),
{
    let ghost whole = text::texts(path@);
    let mut cursor = root;
    let mut depth: usize = 0;
    assert(whole.skip(0) =~= whole);
    while depth < path.len()
        invariant
            depth <= path.len(),
            whole == text::texts(path@),
            owns_path(command_contents(*root), whole) == owns_path(
                command_contents(*cursor),
                whole.skip(depth as int),
            ),
        decreases path.len() - depth,
    {
        let subs = subcommands_of(cursor);
        let at = find_sub(&subs, path[depth].as_str());
        let ghost models = command_contents(*cursor).subcommands;
        assert(models.len() == subs.len());
        if at >= subs.len() {
            return false;
        }
        // The whole path resolves to a core-owned command.
        if depth == path.len() - 1 {
            return true;
        }
        assert(whole.skip(depth as int).drop_first() =~= whole.skip(depth + 1));
        cursor = subs[at];
        assert(command_contents(*cursor) == models[at as int]);
        depth += 1;
    }
    false
}

/// Whether two paths overlap: one continues the other.
pub open spec fn overlap(a: Seq<Seq<char>>, b: Seq<Seq<char>>) -> bool {
    a.is_prefix_of(b) || b.is_prefix_of(a)
}

/// Whether a path overlaps one that is grafted already.
pub open spec fn conflicts(grafted: Seq<GraftModel>, path: Seq<Seq<char>>) -> bool {
    exists|i: int|
        0 <= i < grafted.len() && overlap((#[trigger] grafted[i]).contribution.path, path)
}

fn path_starts_with(path: &Vec<String>, prefix: &Vec<String>) -> (r: bool)
    ensures
        r == text::texts(prefix@).is_prefix_of(text::texts(path@)),
{
    if prefix.len() > path.len() {
        return false;
    }
    let ghost long = text::texts(path@);
    let ghost short = text::texts(prefix@);
    let mut i: usize = 0;
    while i < prefix.len()
        invariant
            i <= prefix.len() <= path.len(),
            long == text::texts(path@),
            short == text::texts(prefix@),
            forall|j: int| 0 <= j < i ==> #[trigger] short[j] == long[j],
        decreases prefix.len() - i,
    {
        if !same_text(path[i].as_str(), prefix[i].as_str()) {
            assert(short[i as int] != long[i as int]);
            assert(long.subrange(0, short.len() as int)[i as int] == long[i as int]);
            return false;
        }
        i += 1;
    }
    assert(short =~= long.subrange(0, short.len() as int));
    true
}

/// Earlier grafts win exact duplicates AND prefix overlaps in both
/// directions: a grafted leaf `["review"]` blocks `["review", "x"]` (the leaf
/// cannot also become a group), and a grafted `["review", "x"]` blocks a
/// later `["review"]` leaf.
pub fn conflicts_with_grafted(grafted: &Vec<GraftedCommand>, path: &Vec<String>) -> (r: bool)
    ensures
        r == conflicts(graft_models(grafted@), text::texts(path@)),
{
    let ghost all = graft_models(grafted@);
    let ghost wanted = text::texts(path@);
    let mut i: usize = 0;
    while i < grafted.len()
        invariant
            i <= grafted.len(),
            all == graft_models(grafted@),
            wanted == text::texts(path@),
            forall|j: int| 0 <= j < i ==> !overlap((#[trigger] all[j]).contribution.path, wanted),
        decreases grafted.len() - i,
    {
        let existing = &grafted[i].contribution.path;
        if path_starts_with(existing, path) || path_starts_with(path, existing) {
            assert(overlap(all[i as int].contribution.path, wanted));
            return true;
        }
        i += 1;
    }
    false
}

/// Whether a contributed path is taken: it is reserved, owned by the core or
/// grafted already.
pub open spec fn unavailable(
    root: CommandModel,
    grafted: Seq<GraftModel>,
    path: Seq<Seq<char>>,
) -> bool {
    path[0] == "plugin"@ || owns_path(root, path) || conflicts(grafted, path)
}

/// The commands grafted so far, and those of one plugin whose path is free.
pub open spec fn grafted_by(
    root: CommandModel,
    before: Seq<GraftModel>,
    plugin_id: Seq<char>,
    commands: Seq<CliCommandContribution>,
) -> Seq<GraftModel>
    decreases commands.len(),
{
    if commands.len() == 0 {
        before
    } else {
        let head = grafted_by(root, before, plugin_id, commands.drop_last());
        let last = commands.last()@;
        if unavailable(root, head, last.path) {
            head
        } else {
            head.push(GraftModel { plugin_id, contribution: last })
        }
    }
}

/// The commands of the plugins that take part whose path is free, in registry
/// and manifest order.
pub open spec fn grafted_in(root: CommandModel, plugins: Seq<LoadedPlugin>) -> Seq<GraftModel>
    decreases plugins.len(),
{
    if plugins.len() == 0 {
        seq![]
    } else {
        let head = grafted_in(root, plugins.drop_last());
        let plugin = plugins.last();
        if registry::is_active(plugin) {
            grafted_by(root, head, plugin.manifest.id@, plugin.manifest.commands@)
        } else {
            head
        }
    }
}

/// Every contributed path has a segment; manifests are checked for it.
pub open spec fn paths_not_empty(plugins: Seq<LoadedPlugin>) -> bool {
    forall|i: int, j: int|
        0 <= i < plugins.len() && registry::is_active(plugins[i]) && 0 <= j
            < plugins[i].manifest.commands.len() ==> (
        #[trigger] plugins[i].manifest.commands@[j]).path.len() > 0
}

/// Collect every active plugin's CLI contributions. Paths that would collide
/// with a core verb are dropped here (core wins, never shadowed); `plugin` is
/// reserved for plugin management.
pub fn grafted_commands(root: &clap::Command, registry: &PluginRegistry) -> (r: Vec<GraftedCommand>)
    requires
        paths_not_empty(registry.plugins@),
    ensures
        graft_models(r@) == grafted_in(command_contents(*root), registry.plugins@),
{
    let plugins = &registry.plugins;
    let ghost tree = command_contents(*root);
    let mut out: Vec<GraftedCommand> = Vec::new();
    let mut i: usize = 0;
    assert(graft_models(out@) =~= grafted_in(tree, plugins@.take(0)));
    while i < plugins.len()
        invariant
            i <= plugins.len(),
            plugins == &registry.plugins,
            paths_not_empty(plugins@),
            tree == command_contents(*root),
            graft_models(out@) == grafted_in(tree, plugins@.take(i as int)),
        decreases plugins.len() - i,
    {
        let plugin = &plugins[i];
        assert(plugins@.take(i + 1).drop_last() =~= plugins@.take(i as int));
        if plugin.active() {
            let commands = &plugin.manifest.commands;
            let ghost id = plugin.manifest.id@;
            let ghost head = graft_models(out@);
            let mut j: usize = 0;
            while j < commands.len()
                invariant
                    i < plugins.len(),
                    j <= commands.len(),
                    paths_not_empty(plugins@),
                    plugin == plugins@[i as int],
                    registry::is_active(*plugin),
                    commands == &plugin.manifest.commands,
                    id == plugin.manifest.id@,
                    tree == command_contents(*root),
                    graft_models(out@) == grafted_by(tree, head, id, commands@.take(j as int)),
                decreases commands.len() - j,
            {
                assert(commands@.take(j + 1).drop_last() =~= commands@.take(j as int));
                let contribution = &commands[j];
                assert(plugins@[i as int].manifest.commands@[j as int].path.len() > 0);
                let reserved = same_text(contribution.path[0].as_str(), "plugin");
                if !(reserved || core_owns_path(root, &contribution.path)
                    || conflicts_with_grafted(&out, &contribution.path)) {
                    let ghost before = graft_models(out@);
                    let row = GraftedCommand {
                        plugin_id: plugin.id().to_owned(),
                        contribution: contribution.clone(),
                    };
                    let ghost model = row@;
                    out.push(row);
                    assert(graft_models(out@) =~= before.push(model));
                }
                j += 1;
            }
            assert(commands@.take(j as int) =~= commands@);
        }
        i += 1;
    }
    assert(plugins@.take(i as int) =~= plugins@);
    out
}

/// The command that a contribution gives, under the last segment of its path.
pub open spec fn leaf_command(contribution: CliCommandModel) -> CommandModel {
    CommandModel {
        name: contribution.path.last(),
        about: Some(contribution.about),
        args: contribution.args,
        subcommands: seq![],
    }
}

fn build_clap_command(contribution: &CliCommandContribution) -> (r: clap::Command)
    requires
        contribution.path.len() > 0,
    ensures
        command_contents(r) == leaf_command(contribution@),
{
    let leaf = contribution.path[contribution.path.len() - 1].as_str();
    let mut cmd = with_about(new_command(leaf), contribution.about.as_str());
    let ghost all = manifest::arg_models(contribution.args@);
    let mut i: usize = 0;
    assert(all.take(0) =~= seq![]);
    while i < contribution.args.len()
        invariant
            i <= contribution.args.len(),
            all == manifest::arg_models(contribution.args@),
            leaf@ == text::texts(contribution.path@).last(),
            command_contents(cmd) == (CommandModel {
                name: leaf@,
                about: Some(contribution.about@),
                args: all.take(i as int),
                subcommands: seq![],
            }),
        decreases contribution.args.len() - i,
    {
        cmd = with_arg(cmd, &contribution.args[i]);
        assert(all.take(i + 1) =~= all.take(i as int).push(all[i as int]));
        i += 1;
    }
    assert(all.take(i as int) =~= all);
    cmd
}

/// The tree with one command grafted. A path of one segment becomes a verb of
/// the root; one of two attaches under the group, which is made where it does
/// not exist; deeper paths are not supported and change nothing.
pub open spec fn with_graft(root: CommandModel, grafted: GraftModel) -> CommandModel {
    let path = grafted.contribution.path;
    let leaf = leaf_command(grafted.contribution);
    if path.len() == 1 {
        with_sub(root, leaf)
    } else if path.len() == 2 {
        if sub_place(root.subcommands, path[0]) < root.subcommands.len() {
            with_nested(root, path[0], leaf)
        } else {
            with_sub(
                root,
                CommandModel {
                    name: path[0],
                    about: None,
                    args: seq![],
                    subcommands: seq![leaf],
                },
            )
        }
    } else {
        root
    }
}

/// The tree with the commands grafted, one after another.
pub open spec fn with_grafts(root: CommandModel, commands: Seq<GraftModel>) -> CommandModel
    decreases commands.len(),
{
    if commands.len() == 0 {
        root
    } else {
        with_graft(with_grafts(root, commands.drop_last()), commands.last())
    }
}

/// Append every grafted command to the root. Nested paths attach under the
/// existing group when it exists (`["session", "archive"]`), or create the
/// intermediate level when it does not.
pub fn graft_all(root: clap::Command, commands: &Vec<GraftedCommand>) -> (r: clap::Command)
    requires
        forall|i: int|
            0 <= i < commands.len() ==> (#[trigger] commands@[i]).contribution.path.len() > 0,
    ensures
        command_contents(r) == with_grafts(command_contents(root), graft_models(commands@)),
{
    let ghost tree = command_contents(root);
    let ghost all = graft_models(commands@);
    let mut root = root;
    let mut i: usize = 0;
    while i < commands.len()
        invariant
            i <= commands.len(),
            all == graft_models(commands@),
            forall|i: int|
                0 <= i < commands.len() ==> (#[trigger] commands@[i]).contribution.path.len() > 0,
            command_contents(root) == with_grafts(tree, all.take(i as int)),
        decreases commands.len() - i,
    {
        let path = &commands[i].contribution.path;
        assert(all.take(i + 1).drop_last() =~= all.take(i as int));
        assert(all.take(i + 1).last() == commands@[i as int]@);
        let leaf = build_clap_command(&commands[i].contribution);
        if path.len() == 1 {
            root = with_subcommand(root, leaf);
        } else if path.len() == 2 {
            let group = path[0].as_str();
            let exists_already = {
                let subs = subcommands_of(&root);
                assert(contents_of(subs@).len() == subs.len());
                find_sub(&subs, group) < subs.len()
            };
            if exists_already {
                root = attach_under(root, group, leaf);
            } else {
                let made = with_subcommand(new_command(group), leaf);
                assert(command_contents(made).subcommands =~= seq![
                    leaf_command(commands@[i as int]@.contribution),
                ]);
                root = with_subcommand(root, made);
            }
        }
        i += 1;
    }
    assert(all.take(i as int) =~= all);
    root
}

/// The path of the subcommands that were found.
pub open spec fn found_path(matches: MatchesModel) -> Seq<Seq<char>>
    decreases matches,
{
    match matches.subcommand {
        Some((name, sub)) => seq![name] + found_path(*sub),
        None => seq![],
    }
}

/// What belongs to the last subcommand that was found.
pub open spec fn found_leaf(matches: MatchesModel) -> MatchesModel
    decreases matches,
{
    match matches.subcommand {
        Some((name, sub)) => found_leaf(*sub),
        None => matches,
    }
}

/// A call that a command line asks for.
#[derive(Debug)]
pub struct Invocation {
    pub plugin_id: String,
    pub rpc_method: String,
    pub params: Json,
}

/// What contracts say of a call.
pub struct InvocationModel {
    pub plugin_id: Seq<char>,
    pub rpc_method: Seq<char>,
    pub params: JsonModel,
}

impl View for Invocation {
    type V = InvocationModel;

    open spec fn view(&self) -> InvocationModel {
        InvocationModel {
            plugin_id: self.plugin_id@,
            rpc_method: self.rpc_method@,
            params: self.params@,
        }
    }
}

/// The arguments that were given, by name.
pub open spec fn given_args(
    args: Seq<CliArgModel>,
    values: Map<Seq<char>, Seq<char>>,
) -> Map<Seq<char>, JsonModel>
    decreases args.len(),
{
    if args.len() == 0 {
        Map::empty()
    } else {
        let head = given_args(args.drop_last(), values);
        let name = args.last().name;
        if values.contains_key(name) {
            head.insert(name, JsonModel::Text(values[name]))
        } else {
            head
        }
    }
}

/// The first grafted command with this path.
pub open spec fn find_graft(commands: Seq<GraftModel>, path: Seq<Seq<char>>) -> Option<GraftModel>
    decreases commands.len(),
{
    if commands.len() == 0 {
        None
    } else if commands[0].contribution.path == path {
        Some(commands[0])
    } else {
        find_graft(commands.drop_first(), path)
    }
}

/// The call that the matches ask for, or `None` where they landed on no
/// grafted command.
pub open spec fn dispatched(matches: MatchesModel, commands: Seq<GraftModel>) -> Option<
    InvocationModel,
> {
    match find_graft(commands, found_path(matches)) {
        Some(grafted) => Some(
            InvocationModel {
                plugin_id: grafted.plugin_id,
                rpc_method: grafted.contribution.rpc_method,
                params: JsonModel::Object(
                    map![
                        "args"@ => JsonModel::Object(
                            given_args(grafted.contribution.args, found_leaf(matches).values),
                        ),
                    ],
                ),
            },
        ),
        None => None,
    }
}

/// If the parsed matches landed on a grafted command, the call to make on
/// the owning plugin's worker. `None` means the matches do not belong to any
/// plugin (the caller surfaces the original error). The answer is shown as
/// [`shown_result`] says.
pub fn dispatch(matches: &clap::ArgMatches, commands: &Vec<GraftedCommand>) -> (r: Option<
    Invocation,
>)
    ensures
        (match r {
            Some(call) => Some(call@),
            None => None,
        }) == dispatched(matches_contents(*matches), graft_models(commands@)),
{
    // Walk the matched subcommand path.
    let ghost whole = matches_contents(*matches);
    let mut path: Vec<String> = Vec::new();
    let mut cursor = matches;
    assert(text::texts(path@) + found_path(whole) =~= found_path(whole));
    loop
        invariant
            whole == matches_contents(*matches),
            text::texts(path@) + found_path(matches_contents(*cursor)) == found_path(whole),
            found_leaf(matches_contents(*cursor)) == found_leaf(whole),
        ensures
            matches_contents(*cursor).subcommand is None,
        decreases matches_contents(*cursor),
    {
        match cursor.subcommand() {
            Some((name, sub)) => {
                let ghost here = matches_contents(*cursor);
                let ghost before = text::texts(path@);
                path.push(name.to_owned());
                proof {
                    let rest = found_path(matches_contents(*sub));
                    assert(text::texts(path@) =~= before.push(name@));
                    assert(before + (seq![name@] + rest) =~= text::texts(path@) + rest);
                    let found = here.subcommand->0;
                    assert(decreases_to!(here => here.subcommand));
                    assert(decreases_to!(here.subcommand => found));
                    assert(decreases_to!(found => found.1));
                }
                cursor = sub;
            },
            None => {
                break ;
            },
        }
    }
    assert(text::texts(path@) + seq![] =~= text::texts(path@));
    let ghost all = graft_models(commands@);
    let mut i: usize = 0;
    assert(all.skip(0) =~= all);
    while i < commands.len() && !same_path(&commands[i].contribution.path, &path)
        invariant
            i <= commands.len(),
            all == graft_models(commands@),
            find_graft(all, text::texts(path@)) == find_graft(
                all.skip(i as int),
                text::texts(path@),
            ),
        decreases commands.len() - i,
    {
        assert(all.skip(i as int).drop_first() =~= all.skip(i + 1));
        i += 1;
    }
    if i >= commands.len() {
        return None;
    }
    let grafted = &commands[i];
    assert(all.skip(i as int)[0] == grafted@);
    let ghost wanted = manifest::arg_models(grafted.contribution.args@);
    let ghost values = matches_contents(*cursor).values;
    let mut args = Json::empty_object();
    let mut j: usize = 0;
    while j < grafted.contribution.args.len()
        invariant
            j <= grafted.contribution.args.len(),
            wanted == manifest::arg_models(grafted.contribution.args@),
            values == matches_contents(*cursor).values,
            args@ == JsonModel::Object(given_args(wanted.take(j as int), values)),
        decreases grafted.contribution.args.len() - j,
    {
        let name = grafted.contribution.args[j].name.as_str();
        assert(wanted.take(j + 1).drop_last() =~= wanted.take(j as int));
        assert(wanted.take(j + 1).last().name == name@);
        if let Some(value) = text_value(cursor, name) {
            args = args.with(name, Json::Text(value));
        }
        j += 1;
    }
    assert(wanted.take(j as int) =~= wanted);
    Some(
        Invocation {
            plugin_id: grafted.plugin_id.clone(),
            rpc_method: grafted.contribution.rpc_method.clone(),
            params: Json::empty_object().with("args", args),
        },
    )
}

fn same_path(a: &Vec<String>, b: &Vec<String>) -> (r: bool)
    ensures
        r == (text::texts(a@) == text::texts(b@)),
{
    let r = a.len() == b.len() && path_starts_with(a, b);
    proof {
        let x = text::texts(a@);
        let y = text::texts(b@);
        if r {
            assert(y =~= x);
        } else if x == y {
            assert(y =~= x.subrange(0, y.len() as int));
        }
    }
    r
}

/// The text that shows the answer of a call: a string as it is, nothing for
/// null, anything else as JSON.
pub fn shown_result(result: &Json) -> (r: Option<String>)
    ensures
        text::optional_text(r) == (match result@ {
            JsonModel::Text(shown) => Some(shown),
            JsonModel::Null => None,
            other => Some(json::text_of_json(other)),
        }),
{
    match result.as_str() {
        Some(shown) => Some(shown.to_owned()),
        None => if result.is_null() {
            None
        } else {
            Some(render_json(result))
        },
    }
}

/// Whether commands may be grafted onto a tree together: none takes a path of
/// the tree or the reserved one, and no two overlap.
pub open spec fn graftable(root: CommandModel, commands: Seq<GraftModel>) -> bool {
    &&& forall|i: int|
        0 <= i < commands.len() ==> {
            let path = (#[trigger] commands[i]).contribution.path;
            path.len() > 0 && path[0] != "plugin"@ && !owns_path(root, path)
        }
    &&& forall|i: int, j: int|
        0 <= i < j < commands.len() ==> !overlap(
            (#[trigger] commands[i]).contribution.path,
            (#[trigger] commands[j]).contribution.path,
        )
}

proof fn grafted_by_is_graftable(
    root: CommandModel,
    before: Seq<GraftModel>,
    plugin_id: Seq<char>,
    commands: Seq<CliCommandContribution>,
)
    requires
        graftable(root, before),
        forall|j: int| 0 <= j < commands.len() ==> (#[trigger] commands[j]).path.len() > 0,
    ensures
        graftable(root, grafted_by(root, before, plugin_id, commands)),
    decreases commands.len(),
{
    if commands.len() > 0 {
        let head = commands.drop_last();
        assert forall|j: int| 0 <= j < head.len() implies (#[trigger] head[j]).path.len() > 0 by {
            assert(commands[j].path.len() > 0);
        }
        grafted_by_is_graftable(root, before, plugin_id, head);
        assert(commands[commands.len() - 1].path.len() > 0);
    }
}

/// A grafted command never shadows a core command, never takes the reserved
/// verb, and never overlaps another grafted command.
pub proof fn grafts_never_collide(root: CommandModel, plugins: Seq<LoadedPlugin>)
    requires
        paths_not_empty(plugins),
    ensures
        graftable(root, grafted_in(root, plugins)),
    decreases plugins.len(),
{
    if plugins.len() > 0 {
        let head = plugins.drop_last();
        assert forall|i: int, j: int|
            0 <= i < head.len() && registry::is_active(head[i]) && 0 <= j
                < head[i].manifest.commands.len() implies (
        #[trigger] head[i].manifest.commands@[j]).path.len() > 0 by {
            assert(plugins[i].manifest.commands@[j].path.len() > 0);
        }
        grafts_never_collide(root, head);
        let plugin = plugins.last();
        if registry::is_active(plugin) {
            assert forall|j: int| 0 <= j < plugin.manifest.commands.len() implies (
            #[trigger] plugin.manifest.commands@[j]).path.len() > 0 by {
                assert(plugins[plugins.len() - 1].manifest.commands@[j].path.len() > 0);
            }
            grafted_by_is_graftable(
                root,
                grafted_in(root, head),
                plugin.manifest.id@,
                plugin.manifest.commands@,
            );
        }
    }
}

/// Whether a plugin that takes part declares a command.
pub open spec fn declares(plugin: LoadedPlugin, graft: GraftModel) -> bool {
    &&& registry::is_active(plugin)
    &&& plugin.manifest.id@ == graft.plugin_id
    &&& exists|j: int|
        0 <= j < plugin.manifest.commands.len() && (#[trigger] plugin.manifest.commands@[j])@
            == graft.contribution
}

proof fn grafted_by_declares(
    root: CommandModel,
    before: Seq<GraftModel>,
    plugin_id: Seq<char>,
    commands: Seq<CliCommandContribution>,
    graft: GraftModel,
)
    requires
        grafted_by(root, before, plugin_id, commands).contains(graft),
        !before.contains(graft),
    ensures
        graft.plugin_id == plugin_id,
        exists|j: int| 0 <= j < commands.len() && (#[trigger] commands[j])@ == graft.contribution,
    decreases commands.len(),
{
    if commands.len() > 0 {
        let rest = commands.drop_last();
        let head = grafted_by(root, before, plugin_id, rest);
        if head.contains(graft) {
            grafted_by_declares(root, before, plugin_id, rest, graft);
            let j = choose|j: int| 0 <= j < rest.len() && (#[trigger] rest[j])@ == graft.contribution;
            assert(commands[j]@ == graft.contribution);
        } else {
            let all = grafted_by(root, before, plugin_id, commands);
            let k = choose|k: int| 0 <= k < all.len() && all[k] == graft;
            if k < head.len() {
                assert(head[k] == graft);
            }
            assert(commands[commands.len() - 1]@ == graft.contribution);
        }
    }
}

/// Every grafted command is one that a plugin that takes part declares: a
/// plugin that is disabled leaves no verb behind.
pub proof fn grafts_come_from_active_plugins(
    root: CommandModel,
    plugins: Seq<LoadedPlugin>,
    graft: GraftModel,
)
    requires
        grafted_in(root, plugins).contains(graft),
    ensures
        exists|i: int| 0 <= i < plugins.len() && declares(#[trigger] plugins[i], graft),
    decreases plugins.len(),
{
    if plugins.len() > 0 {
        let rest = plugins.drop_last();
        let head = grafted_in(root, rest);
        if head.contains(graft) {
            grafts_come_from_active_plugins(root, rest, graft);
            let i = choose|i: int| 0 <= i < rest.len() && declares(#[trigger] rest[i], graft);
            assert(declares(plugins[i], graft));
        } else {
            let plugin = plugins.last();
            grafted_by_declares(
                root,
                head,
                plugin.manifest.id@,
                plugin.manifest.commands@,
                graft,
            );
            assert(declares(plugins[plugins.len() - 1], graft));
        }
    }
}

/// The first subcommand of this name.
pub open spec fn sub_named(subs: Seq<CommandModel>, name: Seq<char>) -> Option<CommandModel> {
    let at = sub_place(subs, name);
    if at < subs.len() {
        Some(subs[at as int])
    } else {
        None
    }
}

/// No two subcommands share a name.
pub open spec fn distinct_subs(subs: Seq<CommandModel>) -> bool {
    forall|i: int, j: int|
        0 <= i < j < subs.len() ==> (#[trigger] subs[i]).name != (#[trigger] subs[j]).name
}

proof fn sub_place_bounds(subs: Seq<CommandModel>, name: Seq<char>)
    ensures
        sub_place(subs, name) <= subs.len(),
        sub_place(subs, name) < subs.len() ==> subs[sub_place(subs, name) as int].name == name,
        forall|j: int| 0 <= j < sub_place(subs, name) ==> (#[trigger] subs[j]).name != name,
    decreases subs.len(),
{
    if subs.len() > 0 && subs[0].name != name {
        let tail = subs.drop_first();
        sub_place_bounds(tail, name);
        assert forall|j: int| 0 <= j < sub_place(subs, name) implies (#[trigger] subs[j]).name
            != name by {
            if j > 0 {
                assert(subs[j] == tail[j - 1]);
            }
        }
    }
}

proof fn sub_place_is(subs: Seq<CommandModel>, name: Seq<char>, at: int)
    requires
        0 <= at < subs.len(),
        subs[at].name == name,
        forall|j: int| 0 <= j < at ==> (#[trigger] subs[j]).name != name,
    ensures
        sub_place(subs, name) == at,
{
    sub_place_bounds(subs, name);
    let p = sub_place(subs, name) as int;
    if p < at {
        assert(subs[p].name != name);
    }
    if at < p {
        assert(subs[at].name != name);
    }
}

proof fn sub_named_push(subs: Seq<CommandModel>, sub: CommandModel, name: Seq<char>)
    ensures
        sub_named(subs.push(sub), name) == (match sub_named(subs, name) {
            Some(found) => Some(found),
            None => if sub.name == name {
                Some(sub)
            } else {
                None
            },
        }),
{
    let more = subs.push(sub);
    sub_place_bounds(subs, name);
    sub_place_bounds(more, name);
    let at = sub_place(subs, name) as int;
    if at < subs.len() {
        assert forall|j: int| 0 <= j < at implies (#[trigger] more[j]).name != name by {
            assert(subs[j].name != name);
        }
        assert(more[at] == subs[at]);
        sub_place_is(more, name, at);
    } else if sub.name == name {
        assert forall|j: int| 0 <= j < subs.len() implies (#[trigger] more[j]).name != name by {
            assert(subs[j].name != name);
        }
        sub_place_is(more, name, subs.len() as int);
    } else {
        let p = sub_place(more, name) as int;
        if p < more.len() && p < subs.len() {
            assert(subs[p].name != name);
        }
    }
}

proof fn sub_named_nested(
    root: CommandModel,
    group: Seq<char>,
    leaf: CommandModel,
    name: Seq<char>,
)
    requires
        distinct_subs(root.subcommands),
        sub_named(root.subcommands, group) is Some,
    ensures
        sub_named(with_nested(root, group, leaf).subcommands, name) == if name == group {
            Some(with_sub(sub_named(root.subcommands, group)->0, leaf))
        } else {
            sub_named(root.subcommands, name)
        },
        distinct_subs(with_nested(root, group, leaf).subcommands),
{
    let subs = root.subcommands;
    let at = sub_place(subs, group) as int;
    sub_place_bounds(subs, group);
    sub_place_bounds(subs, name);
    let left = subs.remove(at);
    let moved = with_sub(subs[at], leaf);
    let out = with_nested(root, group, leaf).subcommands;
    assert(out =~= left.push(moved));
    assert forall|i: int, j: int| 0 <= i < j < out.len() implies (#[trigger] out[i]).name != (
    #[trigger] out[j]).name by {
        let a = if i < at { i } else { i + 1 };
        let b = if j < left.len() {
            if j < at { j } else { j + 1 }
        } else {
            at
        };
        assert(out[i].name == subs[a].name);
        assert(out[j].name == subs[b].name);
        if a < b {
            assert(subs[a].name != subs[b].name);
        } else {
            assert(subs[b].name != subs[a].name);
        }
    }
    if name == group {
        assert forall|j: int| 0 <= j < left.len() implies (#[trigger] out[j]).name != name by {
            assert(out[j].name != out[left.len() as int].name);
        }
        sub_place_is(out, name, left.len() as int);
    } else {
        let p = sub_place(subs, name) as int;
        if p < subs.len() {
            let q = if p < at { p } else { p - 1 };
            assert(out[q] == subs[p]);
            assert forall|j: int| 0 <= j < q implies (#[trigger] out[j]).name != name by {
                assert(out[j].name != out[q].name);
            }
            sub_place_is(out, name, q);
        } else {
            sub_place_bounds(out, name);
            let q = sub_place(out, name) as int;
            if q < out.len() {
                if q < left.len() {
                    let a = if q < at { q } else { q + 1 };
                    assert(out[q] == subs[a]);
                    assert(subs[a].name != name);
                }
            }
        }
    }
}

proof fn owns_more_by_push(root: CommandModel, sub: CommandModel, path: Seq<Seq<char>>)
    ensures
        owns_path(root, path) ==> owns_path(with_sub(root, sub), path),
        owns_path(with_sub(root, sub), path) ==> owns_path(root, path) || (path.len() > 0 && path[0]
            == sub.name && (path.len() == 1 || owns_path(sub, path.drop_first()))),
        path.len() > 0 && path[0] == sub.name && sub_named(root.subcommands, sub.name) is None && (
        path.len() == 1 || owns_path(sub, path.drop_first())) ==> owns_path(
            with_sub(root, sub),
            path,
        ),
{
    if path.len() > 0 {
        sub_named_push(root.subcommands, sub, path[0]);
        let more = with_sub(root, sub).subcommands;
        assert(owns_path(root, path) <==> sub_named(root.subcommands, path[0]) is Some && (
        path.len() == 1 || owns_path(
            sub_named(root.subcommands, path[0])->0,
            path.drop_first(),
        )));
        assert(owns_path(with_sub(root, sub), path) <==> sub_named(more, path[0]) is Some && (
        path.len() == 1 || owns_path(sub_named(more, path[0])->0, path.drop_first())));
    }
}

proof fn graft_step(root: CommandModel, grafted: GraftModel, path: Seq<Seq<char>>)
    requires
        distinct_subs(root.subcommands),
        grafted.contribution.path.len() > 0,
        !owns_path(root, grafted.contribution.path),
    ensures
        distinct_subs(with_graft(root, grafted).subcommands),
        owns_path(root, path) ==> owns_path(with_graft(root, grafted), path),
        owns_path(with_graft(root, grafted), path) ==> owns_path(root, path) || path.is_prefix_of(
            grafted.contribution.path,
        ),
        grafted.contribution.path.len() <= 2 ==> owns_path(
            with_graft(root, grafted),
            grafted.contribution.path,
        ),
{
    let own = grafted.contribution.path;
    let leaf = leaf_command(grafted.contribution);
    let out = with_graft(root, grafted);
    let subs = root.subcommands;
    assert(!owns_path(leaf, path.drop_first()));
    assert(!owns_path(leaf, path.drop_first().drop_first()));
    assert(!owns_path(leaf, own.drop_first()));
    if own.len() == 1 {
        sub_place_bounds(subs, own[0]);
        assert(sub_named(subs, own[0]) is None);
        owns_more_by_push(root, leaf, path);
        owns_more_by_push(root, leaf, own);
        assert forall|i: int, j: int| 0 <= i < j < out.subcommands.len() implies (
        #[trigger] out.subcommands[i]).name != (#[trigger] out.subcommands[j]).name by {
            if j < subs.len() {
                assert(subs[i].name != subs[j].name);
            } else {
                assert(subs[i].name != own[0]);
            }
        }
        if path.len() == 1 && path[0] == own[0] {
            assert(path =~= own.subrange(0, 1));
        }
    } else if own.len() == 2 {
        sub_place_bounds(subs, own[0]);
        if sub_named(subs, own[0]) is Some {
            let group = sub_named(subs, own[0])->0;
            sub_named_nested(root, own[0], leaf, own[0]);
            if path.len() > 0 {
                sub_named_nested(root, own[0], leaf, path[0]);
                owns_more_by_push(group, leaf, path.drop_first());
            }
            assert(own.drop_first().len() == 1 && own.drop_first()[0] == own[1]);
            assert(own[1] == leaf.name);
            assert(!owns_path(group, own.drop_first()));
            sub_place_bounds(group.subcommands, own[1]);
            owns_more_by_push(group, leaf, own.drop_first());
            assert(owns_path(out, path) <==> path.len() > 0 && sub_named(
                out.subcommands,
                path[0],
            ) is Some && (path.len() == 1 || owns_path(
                sub_named(out.subcommands, path[0])->0,
                path.drop_first(),
            )));
            assert(owns_path(out, own) <==> sub_named(out.subcommands, own[0]) is Some
                && owns_path(sub_named(out.subcommands, own[0])->0, own.drop_first()));
            if owns_path(out, path) && !owns_path(root, path) {
                assert(path[0] == own[0]);
                assert(path.len() == 2);
                assert(path.drop_first()[0] == path[1]);
                assert(path =~= own.subrange(0, path.len() as int));
            }
        } else {
            let made = CommandModel {
                name: own[0],
                about: None,
                args: seq![],
                subcommands: seq![leaf],
            };
            let bare = CommandModel { subcommands: seq![], ..made };
            assert(with_sub(bare, leaf).subcommands =~= seq![leaf]);
            assert(with_sub(bare, leaf) == made);
            owns_more_by_push(root, made, path);
            owns_more_by_push(root, made, own);
            owns_more_by_push(bare, leaf, path.drop_first());
            owns_more_by_push(bare, leaf, own.drop_first());
            assert(own.drop_first().len() == 1 && own.drop_first()[0] == own[1]);
            assert(sub_named(bare.subcommands, leaf.name) is None);
            assert(!owns_path(bare, path.drop_first()));
            assert forall|i: int, j: int| 0 <= i < j < out.subcommands.len() implies (
            #[trigger] out.subcommands[i]).name != (#[trigger] out.subcommands[j]).name by {
                if j < subs.len() {
                    assert(subs[i].name != subs[j].name);
                } else {
                    assert(subs[i].name != own[0]);
                }
            }
            if owns_path(out, path) && !owns_path(root, path) {
                if path.len() == 1 {
                    assert(path =~= own.subrange(0, 1));
                } else {
                    assert(path.len() == 2);
                    assert(path.drop_first()[0] == path[1]);
                    assert(path =~= own.subrange(0, 2));
                }
            }
        }
    }
}

proof fn grafting_so_far(root: CommandModel, commands: Seq<GraftModel>, path: Seq<Seq<char>>)
    requires
        distinct_subs(root.subcommands),
        graftable(root, commands),
    ensures
        distinct_subs(with_grafts(root, commands).subcommands),
        owns_path(root, path) ==> owns_path(with_grafts(root, commands), path),
        owns_path(with_grafts(root, commands), path) ==> owns_path(root, path) || exists|i: int|
            0 <= i < commands.len() && path.is_prefix_of(
                (#[trigger] commands[i]).contribution.path,
            ),
        forall|i: int|
            0 <= i < commands.len() && (#[trigger] commands[i]).contribution.path.len() <= 2
                ==> owns_path(with_grafts(root, commands), commands[i].contribution.path),
    decreases commands.len(),
{
    if commands.len() > 0 {
        let head = commands.drop_last();
        let last = commands.last();
        let before = with_grafts(root, head);
        assert(graftable(root, head)) by {
            assert forall|i: int| 0 <= i < head.len() implies {
                let path = (#[trigger] head[i]).contribution.path;
                path.len() > 0 && path[0] != "plugin"@ && !owns_path(root, path)
            } by {
                assert(head[i] == commands[i]);
            }
            assert forall|i: int, j: int| 0 <= i < j < head.len() implies !overlap(
                (#[trigger] head[i]).contribution.path,
                (#[trigger] head[j]).contribution.path,
            ) by {
                assert(head[i] == commands[i] && head[j] == commands[j]);
            }
        }
        let own = last.contribution.path;
        assert(commands[commands.len() - 1] == last);
        grafting_so_far(root, head, own);
        if owns_path(before, own) {
            let i = choose|i: int|
                0 <= i < head.len() && own.is_prefix_of((#[trigger] head[i]).contribution.path);
            assert(!overlap(
                commands[i].contribution.path,
                commands[commands.len() - 1].contribution.path,
            ));
            assert(false);
        }
        grafting_so_far(root, head, path);
        graft_step(before, last, path);
        if owns_path(with_grafts(root, commands), path) && !owns_path(root, path) {
            if owns_path(before, path) {
                let i = choose|i: int|
                    0 <= i < head.len() && path.is_prefix_of(
                        (#[trigger] head[i]).contribution.path,
                    );
                assert(commands[i] == head[i]);
            }
        }
        assert forall|i: int|
            0 <= i < commands.len() && (#[trigger] commands[i]).contribution.path.len()
                <= 2 implies owns_path(
            with_grafts(root, commands),
            commands[i].contribution.path,
        ) by {
            if i < head.len() {
                assert(head[i] == commands[i]);
                graft_step(before, last, commands[i].contribution.path);
            } else {
                graft_step(before, last, own);
            }
        }
    }
}

/// Grafting takes nothing from the core: every path that the core owned is
/// still there.
pub proof fn core_commands_survive(
    root: CommandModel,
    commands: Seq<GraftModel>,
    path: Seq<Seq<char>>,
)
    requires
        distinct_subs(root.subcommands),
        graftable(root, commands),
        owns_path(root, path),
    ensures
        owns_path(with_grafts(root, commands), path),
{
    grafting_so_far(root, commands, path);
}

/// Every grafted command of one or two segments is reachable under its path.
pub proof fn grafts_are_reachable(root: CommandModel, commands: Seq<GraftModel>, i: int)
    requires
        distinct_subs(root.subcommands),
        graftable(root, commands),
        0 <= i < commands.len(),
        commands[i].contribution.path.len() <= 2,
    ensures
        owns_path(with_grafts(root, commands), commands[i].contribution.path),
{
    grafting_so_far(root, commands, commands[i].contribution.path);
}

/// Grafting adds no other path than those of the commands and their groups.
pub proof fn grafts_add_nothing_else(
    root: CommandModel,
    commands: Seq<GraftModel>,
    path: Seq<Seq<char>>,
)
    requires
        distinct_subs(root.subcommands),
        graftable(root, commands),
        owns_path(with_grafts(root, commands), path),
        !owns_path(root, path),
    ensures
        exists|i: int|
            0 <= i < commands.len() && path.is_prefix_of(
                (#[trigger] commands[i]).contribution.path,
            ),
{
    grafting_so_far(root, commands, path);
}

proof fn find_graft_is_one(commands: Seq<GraftModel>, path: Seq<Seq<char>>)
    ensures
        match find_graft(commands, path) {
            Some(grafted) => grafted.contribution.path == path && commands.contains(grafted),
            None => forall|i: int|
                0 <= i < commands.len() ==> (#[trigger] commands[i]).contribution.path != path,
        },
    decreases commands.len(),
{
    if commands.len() > 0 {
        let tail = commands.drop_first();
        find_graft_is_one(tail, path);
        if commands[0].contribution.path == path {
            assert(commands.contains(commands[0]));
        } else {
            match find_graft(commands, path) {
                Some(grafted) => {
                    let k = choose|k: int| 0 <= k < tail.len() && tail[k] == grafted;
                    assert(commands[k + 1] == grafted);
                },
                None => {
                    assert forall|i: int| 0 <= i < commands.len() implies (
                    #[trigger] commands[i]).contribution.path != path by {
                        if i > 0 {
                            assert(commands[i] == tail[i - 1]);
                        }
                    }
                },
            }
        }
    }
}

/// A command line reaches a plugin exactly where it landed on the path of a
/// grafted command; a core path, which no graft has, reaches none.
pub proof fn dispatch_follows_the_path(
    root: CommandModel,
    matches: MatchesModel,
    commands: Seq<GraftModel>,
)
    requires
        graftable(root, commands),
    ensures
        dispatched(matches, commands) is Some <==> exists|i: int|
            0 <= i < commands.len() && (#[trigger] commands[i]).contribution.path == found_path(
                matches,
            ),
        owns_path(root, found_path(matches)) ==> dispatched(matches, commands) is None,
{
    let path = found_path(matches);
    find_graft_is_one(commands, path);
    match find_graft(commands, path) {
        Some(grafted) => {
            let k = choose|k: int| 0 <= k < commands.len() && commands[k] == grafted;
            assert(commands[k].contribution.path == path);
        },
        None => {},
    }
}

/// A path is the core's where each of its segments names a subcommand of the
/// one before; a path without segments, and one that leaves the tree, are free.
pub proof fn owned_paths_follow_the_tree(
    root: CommandModel,
    path: Seq<Seq<char>>,
    name: Seq<char>,
    at: int,
)
    ensures
        !owns_path(root, Seq::empty()),
        (forall|j: int|
            0 <= j < root.subcommands.len() ==> (#[trigger] root.subcommands[j]).name != name)
            ==> !owns_path(root, seq![name] + path),
        0 <= at < root.subcommands.len() && root.subcommands[at].name == name && (forall|j: int|
            0 <= j < at ==> (#[trigger] root.subcommands[j]).name != name) ==> owns_path(
            root,
            seq![name],
        ) && (path.len() > 0 ==> owns_path(root, seq![name] + path) == owns_path(
            root.subcommands[at],
            path,
        )),
{
    sub_place_bounds(root.subcommands, name);
    let whole = seq![name] + path;
    assert(whole.drop_first() =~= path);
    assert(whole[0] == name);
    if 0 <= at < root.subcommands.len() && root.subcommands[at].name == name && (forall|j: int|
        0 <= j < at ==> (#[trigger] root.subcommands[j]).name != name) {
        sub_place_is(root.subcommands, name, at);
    }
}

/// Whether two paths agree as far as the shorter one goes.
pub open spec fn share_start(a: Seq<Seq<char>>, b: Seq<Seq<char>>) -> bool {
    forall|k: int| 0 <= k < a.len() && k < b.len() ==> #[trigger] a[k] == b[k]
}

/// A path conflicts with a grafted one exactly where the two agree as far as
/// the shorter one goes.
pub proof fn conflicts_are_shared_starts(grafted: Seq<GraftModel>, path: Seq<Seq<char>>)
    ensures
        conflicts(grafted, path) <==> exists|i: int|
            0 <= i < grafted.len() && share_start((#[trigger] grafted[i]).contribution.path, path),
{
    assert forall|i: int| 0 <= i < grafted.len() implies overlap(
        (#[trigger] grafted[i]).contribution.path,
        path,
    ) == share_start(grafted[i].contribution.path, path) by {
        let other = grafted[i].contribution.path;
        if overlap(other, path) {
            assert forall|k: int| 0 <= k < other.len() && k < path.len() implies #[trigger] other[k]
                == path[k] by {
                if other.is_prefix_of(path) {
                    assert(path.subrange(0, other.len() as int)[k] == path[k]);
                } else {
                    assert(other.subrange(0, path.len() as int)[k] == other[k]);
                }
            }
        }
        if share_start(other, path) {
            if other.len() <= path.len() {
                assert(other =~= path.subrange(0, other.len() as int));
            } else {
                assert(path =~= other.subrange(0, path.len() as int));
            }
        }
    }
}

proof fn grafted_by_grows(
    root: CommandModel,
    before: Seq<GraftModel>,
    plugin_id: Seq<char>,
    commands: Seq<CliCommandContribution>,
)
    ensures
        before.is_prefix_of(grafted_by(root, before, plugin_id, commands)),
    decreases commands.len(),
{
    let all = grafted_by(root, before, plugin_id, commands);
    if commands.len() > 0 {
        grafted_by_grows(root, before, plugin_id, commands.drop_last());
        let head = grafted_by(root, before, plugin_id, commands.drop_last());
        assert(before =~= head.subrange(0, before.len() as int));
        assert(before =~= all.subrange(0, before.len() as int));
    } else {
        assert(before =~= all.subrange(0, before.len() as int));
    }
}

/// Earlier commands win: what more plugins contribute comes behind what the
/// earlier ones grafted and takes nothing from it.
pub proof fn earlier_grafts_win(
    root: CommandModel,
    earlier: Seq<LoadedPlugin>,
    later: Seq<LoadedPlugin>,
)
    ensures
        grafted_in(root, earlier).is_prefix_of(grafted_in(root, earlier + later)),
    decreases later.len(),
{
    let first = grafted_in(root, earlier);
    let all = grafted_in(root, earlier + later);
    if later.len() == 0 {
        assert(earlier + later =~= earlier);
        assert(first =~= all.subrange(0, first.len() as int));
    } else {
        let rest = later.drop_last();
        assert((earlier + later).drop_last() =~= earlier + rest);
        earlier_grafts_win(root, earlier, rest);
        let head = grafted_in(root, earlier + rest);
        let plugin = later.last();
        assert(first =~= head.subrange(0, first.len() as int));
        grafted_by_grows(root, head, plugin.manifest.id@, plugin.manifest.commands@);
        if registry::is_active(plugin) {
            assert(head =~= all.subrange(0, head.len() as int));
        }
        assert forall|k: int| 0 <= k < first.len() implies first[k] == #[trigger] all[k] by {
            assert(first[k] == head.subrange(0, first.len() as int)[k]);
            if registry::is_active(plugin) {
                assert(head[k] == all.subrange(0, head.len() as int)[k]);
            }
        }
        assert(first =~= all.subrange(0, first.len() as int));
    }
}

proof fn grafted_by_takes_free_paths(
    root: CommandModel,
    before: Seq<GraftModel>,
    plugin_id: Seq<char>,
    commands: Seq<CliCommandContribution>,
    j: int,
)
    requires
        0 <= j < commands.len(),
    ensures
        ({
            let all = grafted_by(root, before, plugin_id, commands);
            let own = GraftModel { plugin_id, contribution: commands[j]@ };
            ||| all.contains(own)
            ||| commands[j]@.path[0] == "plugin"@
            ||| owns_path(root, commands[j]@.path)
            ||| conflicts(all, commands[j]@.path)
        }),
    decreases commands.len(),
{
    let rest = commands.drop_last();
    let head = grafted_by(root, before, plugin_id, rest);
    let all = grafted_by(root, before, plugin_id, commands);
    let own = GraftModel { plugin_id, contribution: commands[j]@ };
    let path = commands[j]@.path;
    if j < rest.len() {
        grafted_by_takes_free_paths(root, before, plugin_id, rest, j);
        if head.contains(own) {
            let k = choose|k: int| 0 <= k < head.len() && head[k] == own;
            assert(all[k] == own);
        }
    } else if !unavailable(root, head, path) {
        assert(all[all.len() - 1] == own);
    }
    if conflicts(head, path) {
        let k = choose|k: int|
            0 <= k < head.len() && overlap((#[trigger] head[k]).contribution.path, path);
        assert(all[k] == head[k]);
        assert(overlap(all[k].contribution.path, path));
    }
}

/// Every command of a plugin that takes part is grafted, unless its path is
/// reserved, is the core's, or overlaps the path of a command that is grafted.
pub proof fn free_paths_are_grafted(
    root: CommandModel,
    plugins: Seq<LoadedPlugin>,
    i: int,
    j: int,
)
    requires
        0 <= i < plugins.len(),
        plugins[i].enabled,
        plugins[i].granted,
        0 <= j < plugins[i].manifest.commands.len(),
    ensures
        ({
            let all = grafted_in(root, plugins);
            let command = plugins[i].manifest.commands@[j]@;
            ||| all.contains(
                (GraftModel { plugin_id: plugins[i].manifest.id@, contribution: command }),
            )
            ||| command.path[0] == "plugin"@
            ||| owns_path(root, command.path)
            ||| conflicts(all, command.path)
        }),
    decreases plugins.len(),
{
    let rest = plugins.drop_last();
    let head = grafted_in(root, rest);
    let all = grafted_in(root, plugins);
    let command = plugins[i].manifest.commands@[j]@;
    let own = GraftModel { plugin_id: plugins[i].manifest.id@, contribution: command };
    if i < rest.len() {
        free_paths_are_grafted(root, rest, i, j);
        assert(rest + seq![plugins.last()] =~= plugins);
        earlier_grafts_win(root, rest, seq![plugins.last()]);
        assert(head =~= all.subrange(0, head.len() as int));
        if head.contains(own) {
            let k = choose|k: int| 0 <= k < head.len() && head[k] == own;
            assert(all.subrange(0, head.len() as int)[k] == all[k]);
            assert(all[k] == own);
        }
        if conflicts(head, command.path) {
            let k = choose|k: int|
                0 <= k < head.len() && overlap((#[trigger] head[k]).contribution.path, command.path);
            assert(all.subrange(0, head.len() as int)[k] == all[k]);
            assert(overlap(all[k].contribution.path, command.path));
        }
    } else {
        grafted_by_takes_free_paths(
            root,
            head,
            plugins[i].manifest.id@,
            plugins[i].manifest.commands@,
            j,
        );
    }
}

/// A command is grafted under the last segment of its path, with its
/// description and all of its arguments: as a verb of the root, or within the
/// group that the path names, which is made where it is missing. The rest of
/// the tree stays; a deeper path changes nothing.
pub proof fn grafts_carry_what_was_declared(root: CommandModel, grafted: GraftModel, at: int)
    ensures
        ({
            let declared = grafted.contribution;
            let path = declared.path;
            let leaf = CommandModel {
                name: path[path.len() - 1],
                about: Some(declared.about),
                args: declared.args,
                subcommands: Seq::empty(),
            };
            let out = with_graft(root, grafted);
            let subs = root.subcommands;
            &&& out.name == root.name
            &&& out.about == root.about
            &&& out.args == root.args
            &&& path.len() == 1 ==> out.subcommands == subs.push(leaf)
            &&& path.len() == 2 && (forall|j: int|
                0 <= j < subs.len() ==> (#[trigger] subs[j]).name != path[0]) ==> out.subcommands
                == subs.push(
                CommandModel {
                    name: path[0],
                    about: None,
                    args: Seq::empty(),
                    subcommands: seq![leaf],
                },
            )
            &&& path.len() == 2 && 0 <= at < subs.len() && subs[at].name == path[0] && (forall|
                j: int,
            |
                0 <= j < at ==> (#[trigger] subs[j]).name != path[0]) ==> out.subcommands
                == subs.remove(at).push(
                CommandModel {
                    name: subs[at].name,
                    about: subs[at].about,
                    args: subs[at].args,
                    subcommands: subs[at].subcommands.push(leaf),
                },
            )
            &&& path.len() > 2 ==> out == root
        }),
{
    let path = grafted.contribution.path;
    let subs = root.subcommands;
    assert(seq![] =~= Seq::<CommandModel>::empty());
    assert(seq![] =~= Seq::<CliArgModel>::empty());
    if path.len() == 2 {
        sub_place_bounds(subs, path[0]);
        if 0 <= at < subs.len() && subs[at].name == path[0] && (forall|j: int|
            0 <= j < at ==> (#[trigger] subs[j]).name != path[0]) {
            sub_place_is(subs, path[0], at);
        }
    }
}

/// Commands are grafted one after another, each onto what the earlier ones
/// made, and none is left out.
pub proof fn grafts_are_added_in_order(
    root: CommandModel,
    commands: Seq<GraftModel>,
    grafted: GraftModel,
)
    ensures
        with_grafts(root, Seq::empty()) == root,
        with_grafts(root, commands.push(grafted)) == with_graft(
            with_grafts(root, commands),
            grafted,
        ),
{
    assert(commands.push(grafted).drop_last() =~= commands);
}

/// The arguments of a call are exactly those that the command declares and the
/// command line gave a value for, required or not, each under its name and
/// with its value.
pub proof fn given_arguments_reach_the_plugin(
    args: Seq<CliArgModel>,
    values: Map<Seq<char>, Seq<char>>,
    name: Seq<char>,
)
    ensures
        given_args(args, values).contains_key(name) <==> values.contains_key(name) && exists|i: int|
            0 <= i < args.len() && (#[trigger] args[i]).name == name,
        given_args(args, values).contains_key(name) ==> given_args(args, values)[name]
            == JsonModel::Text(values[name]),
    decreases args.len(),
{
    if args.len() > 0 {
        let head = args.drop_last();
        given_arguments_reach_the_plugin(head, values, name);
        if exists|i: int| 0 <= i < head.len() && (#[trigger] head[i]).name == name {
            let i = choose|i: int| 0 <= i < head.len() && (#[trigger] head[i]).name == name;
            assert(args[i].name == name);
        }
        if exists|i: int| 0 <= i < args.len() && (#[trigger] args[i]).name == name {
            let i = choose|i: int| 0 <= i < args.len() && (#[trigger] args[i]).name == name;
            if i < head.len() {
                assert(head[i].name == name);
            }
        }
        assert(args[args.len() - 1] == args.last());
    }
}

/// A command line that lands on the path of a grafted command calls the method
/// of that command on its plugin, the first of a path counting; the call holds
/// the arguments under `args` and nothing else.
pub proof fn dispatch_calls_the_command(
    matches: MatchesModel,
    commands: Seq<GraftModel>,
    k: int,
    name: Seq<char>,
)
    requires
        0 <= k < commands.len(),
        commands[k].contribution.path == found_path(matches),
        forall|j: int|
            0 <= j < k ==> (#[trigger] commands[j]).contribution.path != found_path(matches),
    ensures
        dispatched(matches, commands) matches Some(call) && call.plugin_id == commands[k].plugin_id
            && call.rpc_method == commands[k].contribution.rpc_method && (
        call.params matches JsonModel::Object(params) && (forall|key: Seq<char>| #[trigger]
            params.contains_key(key) <==> key == "args"@) && (
        params["args"@] matches JsonModel::Object(args) && ({
            let values = found_leaf(matches).values;
            let wanted = commands[k].contribution.args;
            &&& args.contains_key(name) <==> values.contains_key(name) && exists|i: int|
                0 <= i < wanted.len() && (#[trigger] wanted[i]).name == name
            &&& args.contains_key(name) ==> args[name] == JsonModel::Text(values[name])
        }))),
{
    find_graft_first(commands, found_path(matches), k);
    given_arguments_reach_the_plugin(
        commands[k].contribution.args,
        found_leaf(matches).values,
        name,
    );
}

proof fn find_graft_first(commands: Seq<GraftModel>, path: Seq<Seq<char>>, k: int)
    requires
        0 <= k < commands.len(),
        commands[k].contribution.path == path,
        forall|j: int| 0 <= j < k ==> (#[trigger] commands[j]).contribution.path != path,
    ensures
        find_graft(commands, path) == Some(commands[k]),
    decreases commands.len(),
{
    if k > 0 {
        assert(commands[0].contribution.path != path);
        let tail = commands.drop_first();
        assert forall|j: int| 0 <= j < k - 1 implies (#[trigger] tail[j]).contribution.path
            != path by {
            assert(commands[j + 1].contribution.path != path);
        }
        find_graft_first(tail, path, k - 1);
    }
}

/// The path of a command line is made of all its subcommands from the root on,
/// and its values are those given to the last.
pub proof fn paths_are_walked_to_the_end(
    values: Map<Seq<char>, Seq<char>>,
    name: Seq<char>,
    sub: MatchesModel,
)
    ensures
        found_path(MatchesModel { subcommand: None, values }).len() == 0,
        found_leaf(MatchesModel { subcommand: None, values }).values == values,
        found_path(MatchesModel { subcommand: Some((name, Box::new(sub))), values }) == seq![name]
            + found_path(sub),
        found_leaf(MatchesModel { subcommand: Some((name, Box::new(sub))), values })
            == found_leaf(sub),
{
}

/// What contracts say of grafted commands and of a call are all their parts, in
/// order.
pub proof fn graft_models_are_faithful(
    grafted: Seq<GraftedCommand>,
    i: int,
    call: Invocation,
)
    ensures
        graft_models(grafted).len() == grafted.len(),
        0 <= i < grafted.len() ==> graft_models(grafted)[i].plugin_id == grafted[i].plugin_id@
            && graft_models(grafted)[i].contribution == grafted[i].contribution@,
        call@.plugin_id == call.plugin_id@ && call@.rpc_method == call.rpc_method@ && call@.params
            == call.params@,
{
}

/// No grafted command takes the reserved verb or a path of the core, and no two
/// have paths of which one starts the other.
pub proof fn grafted_paths_stand_alone(
    root: CommandModel,
    plugins: Seq<LoadedPlugin>,
    i: int,
    j: int,
)
    requires
        paths_not_empty(plugins),
    ensures
        ({
            let all = grafted_in(root, plugins);
            &&& 0 <= i < all.len() ==> all[i].contribution.path.len() > 0
                && all[i].contribution.path[0] != "plugin"@ && !owns_path(
                root,
                all[i].contribution.path,
            )
            &&& 0 <= i < all.len() && 0 <= j < all.len() && i != j
                ==> !all[i].contribution.path.is_prefix_of(all[j].contribution.path)
        }),
{
    grafts_never_collide(root, plugins);
    let all = grafted_in(root, plugins);
    if 0 <= i < j < all.len() {
        assert(!overlap(all[i].contribution.path, all[j].contribution.path));
    }
    if 0 <= j < i < all.len() {
        assert(!overlap(all[j].contribution.path, all[i].contribution.path));
    }
}

} // verus!
