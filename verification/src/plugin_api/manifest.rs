//! What a plugin manifest declares, as plain data.

use vstd::prelude::*;

use crate::json::Json;
use crate::plugin_api::capability::Capability;
use crate::plugin_api::id::PluginId;
use crate::text;
use crate::text::copy_texts;

verus! {

/// `toml::Value`, a value of a manifest or of the user's configuration file.
#[verifier::external_type_specification]
#[verifier::external_body]
pub struct ExTomlValue(toml::Value);

/// The places where a plugin may show something.
#[derive(Debug, Clone, Copy, PartialEq, Eq, Hash, Structural)]
pub enum UiSlot {
    StatusBarSegment,
    DashboardCard,
    SessionListRowBadge,
    SessionListColumn,
    SessionListSortKey,
    SessionListFilterFacet,
    SessionDetailHeaderBadge,
    SessionDetailPanel,
}

/// The kebab-case form of a slot.
pub open spec fn slot_name(slot: UiSlot) -> Seq<char> {
    match slot {
        UiSlot::StatusBarSegment => "status-bar-segment"@,
        UiSlot::DashboardCard => "dashboard-card"@,
        UiSlot::SessionListRowBadge => "session-list-row-badge"@,
        UiSlot::SessionListColumn => "session-list-column"@,
        UiSlot::SessionListSortKey => "session-list-sort-key"@,
        UiSlot::SessionListFilterFacet => "session-list-filter-facet"@,
        UiSlot::SessionDetailHeaderBadge => "session-detail-header-badge"@,
        UiSlot::SessionDetailPanel => "session-detail-panel"@,
    }
}

/// Whether what a slot shows belongs to one session.
pub open spec fn slot_session_scoped(slot: UiSlot) -> bool {
    !(slot is StatusBarSegment || slot is DashboardCard)
}

impl UiSlot {
    /// Kebab-case form used in manifests and messages.
    pub fn as_str(self) -> (r: &'static str)
        ensures
            r@ == slot_name(self),
    {
        match self {
            UiSlot::StatusBarSegment => "status-bar-segment",
            UiSlot::DashboardCard => "dashboard-card",
            UiSlot::SessionListRowBadge => "session-list-row-badge",
            UiSlot::SessionListColumn => "session-list-column",
            UiSlot::SessionListSortKey => "session-list-sort-key",
            UiSlot::SessionListFilterFacet => "session-list-filter-facet",
            UiSlot::SessionDetailHeaderBadge => "session-detail-header-badge",
            UiSlot::SessionDetailPanel => "session-detail-panel",
        }
    }

    /// Whether what the slot shows belongs to one session.
    pub fn session_scoped(self) -> (r: bool)
        ensures
            r == slot_session_scoped(self),
    {
        match self {
            UiSlot::StatusBarSegment | UiSlot::DashboardCard => false,
            _ => true,
        }
    }
}

/// A declared piece of UI.
#[derive(Debug)]
pub struct UiContribution {
    pub id: String,
    pub slot: UiSlot,
    /// Column header, panel title, sort mode name.
    pub title: String,
    pub priority: i32,
}

/// What contracts say of a declared piece of UI.
pub struct ContributionModel {
    pub id: Seq<char>,
    pub slot: UiSlot,
    pub title: Seq<char>,
    pub priority: i32,
}

impl View for UiContribution {
    type V = ContributionModel;

    open spec fn view(&self) -> ContributionModel {
        ContributionModel {
            id: self.id@,
            slot: self.slot,
            title: self.title@,
            priority: self.priority,
        }
    }
}

impl Clone for UiContribution {
    fn clone(&self) -> (r: Self)
        ensures
            r@ == self@,
    {
        UiContribution {
            id: self.id.clone(),
            slot: self.slot,
            title: self.title.clone(),
            priority: self.priority,
        }
    }
}

/// How a setting is edited.
#[derive(Debug)]
pub enum SettingWidget {
    Toggle,
    Text,
    /// A number between bounds, given as the whole numbers that the bounds
    /// truncate to. `start` is the JSON form of the lower bound, `0.0` where
    /// there is none.
    Number { min: Option<i64>, max: Option<i64>, start: Json },
    Select { options: Vec<String> },
}

/// A declared setting.
#[derive(Debug)]
pub struct SettingContribution {
    pub key: String,
    pub label: String,
    pub description: String,
    pub widget: SettingWidget,
    pub default: Option<toml::Value>,
}

/// A default that a plugin asks for in a setting of another plugin.
#[derive(Debug)]
pub struct SettingDefault {
    /// `<plugin-id>.<key>` of the setting.
    pub target: String,
    pub value: toml::Value,
    pub priority: i32,
}

/// One argument of a contributed command.
#[derive(Debug)]
pub struct CliArgContribution {
    pub name: String,
    pub help: String,
    pub required: bool,
}

/// A contributed CLI command.
#[derive(Debug)]
pub struct CliCommandContribution {
    pub path: Vec<String>,
    pub about: String,
    pub args: Vec<CliArgContribution>,
    pub rpc_method: String,
}

/// What contracts say of an argument of a contributed command.
pub struct CliArgModel {
    pub name: Seq<char>,
    pub help: Seq<char>,
    pub required: bool,
}

impl View for CliArgContribution {
    type V = CliArgModel;

    open spec fn view(&self) -> CliArgModel {
        CliArgModel { name: self.name@, help: self.help@, required: self.required }
    }
}

/// The models of a list of arguments.
pub open spec fn arg_models(args: Seq<CliArgContribution>) -> Seq<CliArgModel> {
    args.map_values(|a: CliArgContribution| a@)
}

/// What contracts say of a contributed command.
pub struct CliCommandModel {
    pub path: Seq<Seq<char>>,
    pub about: Seq<char>,
    pub args: Seq<CliArgModel>,
    pub rpc_method: Seq<char>,
}

impl View for CliCommandContribution {
    type V = CliCommandModel;

    open spec fn view(&self) -> CliCommandModel {
        CliCommandModel {
            path: text::texts(self.path@),
            about: self.about@,
            args: arg_models(self.args@),
            rpc_method: self.rpc_method@,
        }
    }
}

impl Clone for CliCommandContribution {
    fn clone(&self) -> (r: Self)
        ensures
            r@ == self@,
    {
        let mut args: Vec<CliArgContribution> = Vec::new();
        let mut i: usize = 0;
        while i < self.args.len()
            invariant
                i <= self.args.len(),
                args.len() == i,
                forall|j: int| 0 <= j < i ==> (#[trigger] args@[j])@ == self.args@[j]@,
            decreases self.args.len() - i,
        {
            let arg = &self.args[i];
            args.push(
                CliArgContribution {
                    name: arg.name.clone(),
                    help: arg.help.clone(),
                    required: arg.required,
                },
            );
            i += 1;
        }
        assert(arg_models(args@) =~= arg_models(self.args@));
        CliCommandContribution {
            path: copy_texts(&self.path),
            about: self.about.clone(),
            args,
            rpc_method: self.rpc_method.clone(),
        }
    }
}

/// The worker of a plugin.
#[derive(Debug)]
pub struct RuntimeSpec {
    pub entrypoint: String,
    pub args: Vec<String>,
}

/// What a plugin declares.
#[derive(Debug)]
pub struct PluginManifest {
    pub id: PluginId,
    pub capabilities: Vec<Capability>,
    pub settings: Vec<SettingContribution>,
    pub setting_defaults: Vec<SettingDefault>,
    pub commands: Vec<CliCommandContribution>,
    pub ui: Vec<UiContribution>,
    pub runtime: Option<RuntimeSpec>,
}

/// The status bar and the dashboard are shared by all sessions; every other
/// slot shows what belongs to one session, and its name says so.
pub proof fn slots_of_sessions_are_named_so(slot: UiSlot)
    ensures
        slot_session_scoped(slot) <==> "session-"@.is_prefix_of(slot_name(slot)),
        slot_session_scoped(slot) <==> slot != UiSlot::StatusBarSegment && slot
            != UiSlot::DashboardCard,
{
    reveal_strlit("session-");
    reveal_strlit("status-bar-segment");
    reveal_strlit("dashboard-card");
    reveal_strlit("session-list-row-badge");
    reveal_strlit("session-list-column");
    reveal_strlit("session-list-sort-key");
    reveal_strlit("session-list-filter-facet");
    reveal_strlit("session-detail-header-badge");
    reveal_strlit("session-detail-panel");
    let name = slot_name(slot);
    let head = "session-"@;
    if slot_session_scoped(slot) {
        assert(name.subrange(0, head.len() as int) =~= head);
    } else {
        assert(name[1] != head[1] || name[0] != head[0]);
        assert(name.subrange(0, head.len() as int)[1] == name[1]);
        assert(name.subrange(0, head.len() as int)[0] == name[0]);
    }
}

/// Different slots have different names.
pub proof fn slot_names_differ(a: UiSlot, b: UiSlot)
    requires
        slot_name(a) == slot_name(b),
    ensures
        a == b,
{
    reveal_strlit("status-bar-segment");
    reveal_strlit("dashboard-card");
    reveal_strlit("session-list-row-badge");
    reveal_strlit("session-list-column");
    reveal_strlit("session-list-sort-key");
    reveal_strlit("session-list-filter-facet");
    reveal_strlit("session-detail-header-badge");
    reveal_strlit("session-detail-panel");
    assert("status-bar-segment"@.len() == 18 && "dashboard-card"@.len() == 14);
    assert("session-list-row-badge"@.len() == 22 && "session-list-column"@.len() == 19);
    assert("session-list-sort-key"@.len() == 21 && "session-list-filter-facet"@.len() == 25);
    assert("session-detail-header-badge"@.len() == 27 && "session-detail-panel"@.len() == 20);
}

/// What contracts say of a contribution is all that the manifest says of it.
pub proof fn contribution_models_are_faithful(
    ui: UiContribution,
    arg: CliArgContribution,
    command: CliCommandContribution,
    i: int,
)
    ensures
        ui@.id == ui.id@ && ui@.slot == ui.slot && ui@.title == ui.title@ && ui@.priority
            == ui.priority,
        arg@.name == arg.name@ && arg@.help == arg.help@ && arg@.required == arg.required,
        command@.about == command.about@ && command@.rpc_method == command.rpc_method@,
        command@.path.len() == command.path.len(),
        0 <= i < command.path.len() ==> command@.path[i] == command.path@[i]@,
        command@.args.len() == command.args.len(),
        0 <= i < command.args.len() ==> command@.args[i] == command.args@[i]@,
{
}

/// Slots go by their kebab-case names.
pub proof fn slots_go_by_name(slot: UiSlot)
    ensures
        slot_name(slot) == (match slot {
            UiSlot::StatusBarSegment => "status-bar-segment"@,
            UiSlot::DashboardCard => "dashboard-card"@,
            UiSlot::SessionListRowBadge => "session-list-row-badge"@,
            UiSlot::SessionListColumn => "session-list-column"@,
            UiSlot::SessionListSortKey => "session-list-sort-key"@,
            UiSlot::SessionListFilterFacet => "session-list-filter-facet"@,
            UiSlot::SessionDetailHeaderBadge => "session-detail-header-badge"@,
            UiSlot::SessionDetailPanel => "session-detail-panel"@,
        }),
{
}

} // verus!
