//! Sort-order picker dialog: the core `SortOrder`s plus any sort modes
//! contributed by active plugins (`session-list-sort-key` slot). Picking a
//! plugin mode never replaces the core order silently; it composes on top
//! (sessions re-rank inside their groups) and shows here as the current
//! choice until cleared.

use vstd::prelude::*;

use crate::plugin::registry::LoadedPlugin;
use crate::plugin::registry::PluginRegistry;
use crate::plugin::ui;
use crate::plugin::ui::declared;
use crate::plugin::ui::DeclaredModel;
use crate::plugin_api::manifest::UiContribution;
use crate::plugin_api::manifest::UiSlot;
use crate::sorting;
use crate::text;
use crate::text::concat2;
use crate::text::concat3;
use crate::text::same_text;
use crate::tui::dialogs;
use crate::tui::dialogs::add_line;
use crate::tui::dialogs::add_span;
use crate::tui::dialogs::bordered_inner;
use crate::tui::dialogs::centered_rect;
use crate::tui::dialogs::line_of_two;
use crate::tui::dialogs::split_vertically;
use crate::tui::dialogs::styled;
use crate::tui::dialogs::DialogResult;
use crate::tui::dialogs::Key;
use crate::tui::dialogs::Rect;
use crate::tui::dialogs::SpanModel;
use crate::tui::dialogs::StyledLine;
use crate::tui::dialogs::Tone;

verus! {

/// The core orders of the session list.
#[derive(Debug, Clone, Copy, PartialEq, Eq, Structural)]
pub enum SortOrder {
    Newest,
    Attention,
    LastActivity,
    Oldest,
    AZ,
    ZA,
}

/// The core orders as the picker lists them.
pub open spec fn core_options() -> Seq<SortOrder> {
    seq![
        SortOrder::Newest,
        SortOrder::Attention,
        SortOrder::LastActivity,
        SortOrder::Oldest,
        SortOrder::AZ,
        SortOrder::ZA,
    ]
}

/// How the core orders are shown.
#[derive(Debug)]
pub struct SortLabels {
    pub newest: String,
    pub attention: String,
    pub last_activity: String,
    pub oldest: String,
    pub az: String,
    pub za: String,
}

/// How a core order is shown.
pub open spec fn label_text(labels: SortLabels, order: SortOrder) -> Seq<char> {
    match order {
        SortOrder::Newest => labels.newest@,
        SortOrder::Attention => labels.attention@,
        SortOrder::LastActivity => labels.last_activity@,
        SortOrder::Oldest => labels.oldest@,
        SortOrder::AZ => labels.az@,
        SortOrder::ZA => labels.za@,
    }
}

impl SortLabels {
    fn label(&self, order: SortOrder) -> (r: &str)
        ensures
            r@ == label_text(*self, order),
    {
        match order {
            SortOrder::Newest => self.newest.as_str(),
            SortOrder::Attention => self.attention.as_str(),
            SortOrder::LastActivity => self.last_activity.as_str(),
            SortOrder::Oldest => self.oldest.as_str(),
            SortOrder::AZ => self.az.as_str(),
            SortOrder::ZA => self.za.as_str(),
        }
    }
}

/// What the picker returns: a core order (clears any plugin mode) or a
/// plugin-contributed sort mode.
#[derive(Debug, PartialEq)]
pub enum SortChoice {
    Core(SortOrder),
    Plugin { plugin_id: String, contribution_id: String },
}

/// What contracts say of a choice.
pub enum SortChoiceModel {
    Core(SortOrder),
    Plugin { plugin_id: Seq<char>, contribution_id: Seq<char> },
}

impl View for SortChoice {
    type V = SortChoiceModel;

    open spec fn view(&self) -> SortChoiceModel {
        match *self {
            SortChoice::Core(order) => SortChoiceModel::Core(order),
            SortChoice::Plugin { plugin_id, contribution_id } => SortChoiceModel::Plugin {
                plugin_id: plugin_id@,
                contribution_id: contribution_id@,
            },
        }
    }
}

impl Clone for SortChoice {
    fn clone(&self) -> (r: Self)
        ensures
            r@ == self@,
    {
        match self {
            SortChoice::Core(order) => SortChoice::Core(*order),
            SortChoice::Plugin { plugin_id, contribution_id } => SortChoice::Plugin {
                plugin_id: plugin_id.clone(),
                contribution_id: contribution_id.clone(),
            },
        }
    }
}

fn same_choice(a: &SortChoice, b: &SortChoice) -> (r: bool)
    ensures
        r == (a@ == b@),
{
    match (a, b) {
        (SortChoice::Core(x), SortChoice::Core(y)) => *x == *y,
        (
            SortChoice::Plugin { plugin_id: p, contribution_id: c },
            SortChoice::Plugin { plugin_id: q, contribution_id: d },
        ) => same_text(p.as_str(), q.as_str()) && same_text(c.as_str(), d.as_str()),
        _ => false,
    }
}

#[derive(Debug)]
struct Row {
    choice: SortChoice,
    label: String,
}

/// What contracts say of a row.
pub struct RowModel {
    pub choice: SortChoiceModel,
    pub label: Seq<char>,
}

spec fn row_models(rows: Seq<Row>) -> Seq<RowModel> {
    rows.map_values(|r: Row| RowModel { choice: r.choice@, label: r.label@ })
}

/// The picker.
#[derive(Debug)]
pub struct SortPickerDialog {
    rows: Vec<Row>,
    selected: usize,
    current: SortChoice,
    list_area: Rect,
    dialog_area: Rect,
}

/// What contracts say of the picker.
pub struct PickerModel {
    pub rows: Seq<RowModel>,
    pub selected: int,
    pub current: SortChoiceModel,
    pub list_area: Rect,
    pub dialog_area: Rect,
}

impl View for SortPickerDialog {
    type V = PickerModel;

    closed spec fn view(&self) -> PickerModel {
        PickerModel {
            rows: row_models(self.rows@),
            selected: self.selected as int,
            current: self.current@,
            list_area: self.list_area,
            dialog_area: self.dialog_area,
        }
    }
}

/// A row is always selected.
pub open spec fn picker_ok(picker: PickerModel) -> bool {
    0 <= picker.selected < picker.rows.len()
}

/// The rows of the core orders.
pub open spec fn core_rows(labels: SortLabels) -> Seq<RowModel> {
    core_options().map_values(
        |o: SortOrder|
            RowModel { choice: SortChoiceModel::Core(o), label: label_text(labels, o) },
    )
}

/// The row of a contributed sort mode.
pub open spec fn plugin_row(given: DeclaredModel) -> RowModel {
    RowModel {
        choice: SortChoiceModel::Plugin {
            plugin_id: given.plugin_id,
            contribution_id: given.contribution.id,
        },
        label: given.contribution.title + " ("@ + (given.plugin_id + ")"@),
    }
}

/// The sort modes that the plugins contribute, the strongest first.
pub open spec fn sort_modes(plugins: Seq<LoadedPlugin>) -> Seq<DeclaredModel> {
    sorting::stable_sorted::<(String, UiContribution)>(
        ui::declared_in(plugins, UiSlot::SessionListSortKey),
    )
}

/// All rows.
pub open spec fn all_rows(labels: SortLabels, plugins: Seq<LoadedPlugin>) -> Seq<RowModel> {
    core_rows(labels) + sort_modes(plugins).map_values(|d: DeclaredModel| plugin_row(d))
}

/// The place of the first row with a choice, or their number.
pub open spec fn choice_place(rows: Seq<RowModel>, choice: SortChoiceModel) -> nat
    decreases rows.len(),
{
    if rows.len() == 0 || rows[0].choice == choice {
        0
    } else {
        1 + choice_place(rows.drop_first(), choice)
    }
}

/// The current choice: a persisted plugin sort whose contribution vanished
/// (plugin disabled/uninstalled) falls back to the core order.
pub open spec fn current_choice(
    rows: Seq<RowModel>,
    order: SortOrder,
    plugin: Option<(Seq<char>, Seq<char>)>,
) -> SortChoiceModel {
    match plugin {
        Some((plugin_id, contribution_id)) => {
            let wanted = SortChoiceModel::Plugin { plugin_id, contribution_id };
            if choice_place(rows, wanted) < rows.len() {
                wanted
            } else {
                SortChoiceModel::Core(order)
            }
        },
        None => SortChoiceModel::Core(order),
    }
}

/// The texts of an optional pair.
pub open spec fn optional_pair(pair: Option<(String, String)>) -> Option<(Seq<char>, Seq<char>)> {
    match pair {
        Some((a, b)) => Some((a@, b@)),
        None => None,
    }
}

/// The picker when it opens, on the current choice.
pub open spec fn opened_picker(
    labels: SortLabels,
    plugins: Seq<LoadedPlugin>,
    order: SortOrder,
    plugin: Option<(Seq<char>, Seq<char>)>,
) -> PickerModel {
    let rows = all_rows(labels, plugins);
    let current = current_choice(rows, order, plugin);
    PickerModel {
        rows,
        selected: choice_place(rows, current) as int,
        current,
        list_area: Rect { x: 0, y: 0, width: 0, height: 0 },
        dialog_area: Rect { x: 0, y: 0, width: 0, height: 0 },
    }
}

fn find_choice(rows: &Vec<Row>, choice: &SortChoice) -> (r: usize)
    ensures
        r == choice_place(row_models(rows@), choice@),
        r <= rows.len(),
{
    let ghost all = row_models(rows@);
    let mut i: usize = 0;
    assert(all.skip(0) =~= all);
    while i < rows.len() && !same_choice(&rows[i].choice, choice)
        invariant
            i <= rows.len(),
            all == row_models(rows@),
            choice_place(all, choice@) == i + choice_place(all.skip(i as int), choice@),
        decreases rows.len() - i,
    {
        assert(all.skip(i as int).drop_first() =~= all.skip(i + 1));
        i += 1;
    }
    i
}

proof fn choice_place_bounds(rows: Seq<RowModel>, choice: SortChoiceModel)
    ensures
        choice_place(rows, choice) <= rows.len(),
        choice_place(rows, choice) < rows.len() ==> rows[choice_place(
            rows,
            choice,
        ) as int].choice == choice,
        forall|j: int|
            0 <= j < choice_place(rows, choice) ==> (#[trigger] rows[j]).choice != choice,
    decreases rows.len(),
{
    if rows.len() > 0 && rows[0].choice != choice {
        let tail = rows.drop_first();
        choice_place_bounds(tail, choice);
        assert forall|j: int| 0 <= j < choice_place(rows, choice) implies (
        #[trigger] rows[j]).choice != choice by {
            if j > 0 {
                assert(rows[j] == tail[j - 1]);
            }
        }
    }
}

/// The place of a core order in the list.
pub open spec fn order_place(order: SortOrder) -> int {
    match order {
        SortOrder::Newest => 0,
        SortOrder::Attention => 1,
        SortOrder::LastActivity => 2,
        SortOrder::Oldest => 3,
        SortOrder::AZ => 4,
        SortOrder::ZA => 5,
    }
}

proof fn core_order_is_listed(labels: SortLabels, plugins: Seq<LoadedPlugin>, order: SortOrder)
    ensures
        choice_place(all_rows(labels, plugins), SortChoiceModel::Core(order)) < all_rows(
            labels,
            plugins,
        ).len(),
{
    let rows = all_rows(labels, plugins);
    let choice = SortChoiceModel::Core(order);
    choice_place_bounds(rows, choice);
    let i = order_place(order);
    assert(core_options()[i] == order);
    assert(rows[i].choice == choice);
}

/// The row under a cell, if there is one.
pub open spec fn row_at(picker: PickerModel, col: u16, row: u16) -> Option<int> {
    if dialogs::holds_cell(picker.list_area, col, row) && row - picker.list_area.y
        < picker.rows.len() {
        Some(row - picker.list_area.y)
    } else {
        None
    }
}

/// What contracts say of what a key or a click does.
pub enum PickerResult {
    Continue,
    Cancel,
    Submit(SortChoiceModel),
}

/// The model of a result.
pub open spec fn picker_result(r: DialogResult<SortChoice>) -> PickerResult {
    match r {
        DialogResult::Continue => PickerResult::Continue,
        DialogResult::Cancel => PickerResult::Cancel,
        DialogResult::Submit(choice) => PickerResult::Submit(choice@),
    }
}

/// The selected row after a key.
pub open spec fn selected_after(picker: PickerModel, key: Key) -> int {
    match key {
        Key::Up | Key::Char('k') => if picker.selected > 0 {
            picker.selected - 1
        } else {
            picker.selected
        },
        Key::Down | Key::Char('j') => if picker.selected + 1 < picker.rows.len() {
            picker.selected + 1
        } else {
            picker.selected
        },
        _ => picker.selected,
    }
}

/// What a key does.
pub open spec fn key_result(picker: PickerModel, key: Key) -> PickerResult {
    match key {
        Key::Esc => PickerResult::Cancel,
        Key::Enter => PickerResult::Submit(picker.rows[picker.selected].choice),
        _ => PickerResult::Continue,
    }
}

/// The number of characters of the widest label of some rows.
pub open spec fn widest_label(rows: Seq<RowModel>) -> nat
    decreases rows.len(),
{
    if rows.len() == 0 {
        0
    } else {
        let head = widest_label(rows.drop_last());
        if rows.last().label.len() > head {
            rows.last().label.len()
        } else {
            head
        }
    }
}

/// A number as it is kept in 16 bits.
pub open spec fn in_cells(n: nat) -> nat {
    n % 65536
}

/// The width of the dialog: room for the widest label, within bounds.
pub open spec fn dialog_width(rows: Seq<RowModel>) -> int {
    let wanted = in_cells(widest_label(rows)) + 16;
    if wanted < 32 {
        32
    } else if wanted > 60 {
        60
    } else {
        wanted as int
    }
}

/// The height of the dialog.
pub open spec fn dialog_height(rows: Seq<RowModel>) -> int {
    in_cells(rows.len()) as int + 5
}

/// The line of a row.
pub open spec fn row_line(picker: PickerModel, i: int) -> Seq<SpanModel> {
    let tone = if i == picker.selected {
        Tone::AccentBold
    } else {
        Tone::Text
    };
    let prefix = if i == picker.selected {
        "> "@
    } else {
        "  "@
    };
    let head = seq![
        dialogs::span(prefix, tone),
        dialogs::span(picker.rows[i].label, tone),
    ];
    if picker.rows[i].choice == picker.current {
        head.push(dialogs::span("  (current)"@, Tone::Running))
    } else {
        head
    }
}

/// The lines of all rows.
pub open spec fn row_lines(picker: PickerModel) -> Seq<Seq<SpanModel>> {
    Seq::new(picker.rows.len(), |i: int| row_line(picker, i))
}

/// The line below the rows.
pub open spec fn hint_line() -> Seq<SpanModel> {
    seq![
        dialogs::span("Enter"@, Tone::Hint),
        dialogs::span(" select  "@, Tone::Plain),
        dialogs::span("Esc"@, Tone::Hint),
        dialogs::span(" close"@, Tone::Plain),
    ]
}

/// What the picker shows, and where.
#[derive(Debug)]
pub struct PickerView {
    /// The whole dialog, with its border and the title ` Sort Order `.
    pub dialog: Rect,
    pub list: Rect,
    pub hint: Rect,
    pub lines: Vec<StyledLine>,
    pub hint_line: StyledLine,
}

/// The first part of the layout inside the dialog's border.
pub open spec fn part_of(dialog: Rect, i: int) -> (u16, u16, u16, u16) {
    let inner = dialogs::inside_border(dialog);
    dialogs::layout_parts(inner.x, inner.y, inner.width, inner.height, 1, 1, 1)[i]
}

impl SortPickerDialog {
    #[verifier::type_invariant]
    spec fn well_formed(self) -> bool {
        picker_ok(self@)
    }

    /// Open the picker on the current order.
    pub fn new(
        current_order: SortOrder,
        current_plugin: Option<(String, String)>,
        registry: &PluginRegistry,
        labels: &SortLabels,
    ) -> (r: Self)
        ensures
            r@ == opened_picker(
                *labels,
                registry.plugins@,
                current_order,
                optional_pair(current_plugin),
            ),
            picker_ok(r@),
    {
        let options = vec![
            SortOrder::Newest,
            SortOrder::Attention,
            SortOrder::LastActivity,
            SortOrder::Oldest,
            SortOrder::AZ,
            SortOrder::ZA,
        ];
        assert(options@ =~= core_options());
        let mut rows: Vec<Row> = Vec::new();
        let ghost core = core_rows(*labels);
        let mut i: usize = 0;
        assert(row_models(rows@) =~= core.take(0));
        while i < options.len()
            invariant
                i <= options.len(),
                options@ == core_options(),
                core == core_rows(*labels),
                row_models(rows@) == core.take(i as int),
            decreases options.len() - i,
        {
            let ghost before = row_models(rows@);
            let order = options[i];
            rows.push(
                Row {
                    choice: SortChoice::Core(order),
                    label: labels.label(order).to_owned(),
                },
            );
            assert(row_models(rows@) =~= before.push(core[i as int]));
            assert(core.take(i + 1) =~= core.take(i as int).push(core[i as int]));
            i += 1;
        }
        assert(core.take(i as int) =~= core);
        let modes = declared(registry, UiSlot::SessionListSortKey);
        let ghost given = sort_modes(registry.plugins@);
        let ghost more = given.map_values(|d: DeclaredModel| plugin_row(d));
        let ghost pairs = modes@;
        assert(row_models(rows@) =~= core + more.take(0));
        for pair in it: modes
            invariant
                it.seq() == pairs,
                sorting::models(pairs) == given,
                more == given.map_values(|d: DeclaredModel| plugin_row(d)),
                row_models(rows@) == core + more.take(it.index()),
        {
            let ghost before = row_models(rows@);
            assert(sorting::models(pairs)[it.index()] == (DeclaredModel {
                plugin_id: pair.0@,
                contribution: pair.1@,
            }));
            let (plugin_id, contribution) = pair;
            let tail = concat2(plugin_id.as_str(), ")");
            let label = concat3(contribution.title.as_str(), " (", tail.as_str());
            rows.push(
                Row {
                    label,
                    choice: SortChoice::Plugin { plugin_id, contribution_id: contribution.id },
                },
            );
            assert(row_models(rows@) =~= before.push(more[it.index()]));
            assert(more.take(it.index() + 1) =~= more.take(it.index()).push(more[it.index()]));
            assert(row_models(rows@) =~= core + more.take(it.index() + 1));
        }
        assert(more.take(more.len() as int) =~= more);
        let ghost all = all_rows(*labels, registry.plugins@);
        assert(row_models(rows@) =~= all);
        proof {
            core_order_is_listed(*labels, registry.plugins@, current_order);
        }
        let current = match current_plugin {
            Some((plugin_id, contribution_id)) => {
                let wanted = SortChoice::Plugin { plugin_id, contribution_id };
                if find_choice(&rows, &wanted) < rows.len() {
                    wanted
                } else {
                    SortChoice::Core(current_order)
                }
            },
            None => SortChoice::Core(current_order),
        };
        let selected = find_choice(&rows, &current);
        SortPickerDialog {
            rows,
            selected,
            current,
            list_area: Rect::default(),
            dialog_area: Rect::default(),
        }
    }

    /// The number of the selected row.
    pub fn selected(&self) -> (r: usize)
        ensures
            r == self@.selected,
    {
        self.selected
    }

    fn row_to_idx(&self, col: u16, row: u16) -> (r: Option<usize>)
        ensures
            match r {
                Some(i) => row_at(self@, col, row) == Some(i as int) && i < self@.rows.len(),
                None => row_at(self@, col, row) is None,
            },
    {
        if !self.list_area.contains(col, row) {
            return None;
        }
        let i = (row - self.list_area.y) as usize;
        if i >= self.rows.len() {
            return None;
        }
        Some(i)
    }

    /// A click outside of the dialog cancels it; one on a row picks that row.
    pub fn handle_click(&mut self, col: u16, row: u16) -> (r: DialogResult<SortChoice>)
        ensures
            picker_result(r) == (if !dialogs::holds_cell(old(self)@.dialog_area, col, row) {
                PickerResult::Cancel
            } else {
                match row_at(old(self)@, col, row) {
                    Some(i) => PickerResult::Submit(old(self)@.rows[i].choice),
                    None => PickerResult::Continue,
                }
            }),
            final(self)@ == (PickerModel {
                selected: match row_at(old(self)@, col, row) {
                    Some(i) => if dialogs::holds_cell(old(self)@.dialog_area, col, row) {
                        i
                    } else {
                        old(self)@.selected
                    },
                    None => old(self)@.selected,
                },
                ..old(self)@
            }),
            picker_ok(final(self)@),
    {
        proof {
            use_type_invariant(&*self);
        }
        if !self.dialog_area.contains(col, row) {
            return DialogResult::Cancel;
        }
        match self.row_to_idx(col, row) {
            None => DialogResult::Continue,
            Some(i) => {
                self.selected = i;
                DialogResult::Submit(self.rows[i].choice.clone())
            },
        }
    }

    /// The pointer moves over a row: whether that changes the selection.
    pub fn handle_hover(&mut self, col: u16, row: u16) -> (r: bool)
        ensures
            r == (row_at(old(self)@, col, row) matches Some(i) && i != old(self)@.selected),
            final(self)@ == (PickerModel {
                selected: match row_at(old(self)@, col, row) {
                    Some(i) => i,
                    None => old(self)@.selected,
                },
                ..old(self)@
            }),
            picker_ok(final(self)@),
    {
        proof {
            use_type_invariant(&*self);
        }
        match self.row_to_idx(col, row) {
            None => false,
            Some(i) => {
                if self.selected == i {
                    return false;
                }
                self.selected = i;
                true
            },
        }
    }

    /// A key: Esc cancels, Enter picks the selected row, the arrows move the
    /// selection within the rows.
    pub fn handle_key(&mut self, key: Key) -> (r: DialogResult<SortChoice>)
        ensures
            picker_result(r) == key_result(old(self)@, key),
            final(self)@ == (PickerModel {
                selected: selected_after(old(self)@, key),
                ..old(self)@
            }),
            picker_ok(final(self)@),
    {
        proof {
            use_type_invariant(&*self);
            assert(self@.rows.len() == self.rows.len());
        }
        match key {
            Key::Esc => DialogResult::Cancel,
            Key::Up | Key::Char('k') => {
                if self.selected > 0 {
                    self.selected = self.selected - 1;
                }
                DialogResult::Continue
            },
            Key::Down | Key::Char('j') => {
                if self.selected + 1 < self.rows.len() {
                    self.selected = self.selected + 1;
                }
                DialogResult::Continue
            },
            Key::Enter => DialogResult::Submit(self.rows[self.selected].choice.clone()),
            _ => DialogResult::Continue,
        }
    }

    fn widest(&self) -> (r: usize)
        ensures
            r == widest_label(self@.rows),
    {
        let ghost all = self@.rows;
        let mut widest: usize = 0;
        let mut i: usize = 0;
        while i < self.rows.len()
            invariant
                i <= self.rows.len(),
                all == self@.rows,
                widest == widest_label(all.take(i as int)),
            decreases self.rows.len() - i,
        {
            assert(all.take(i + 1).drop_last() =~= all.take(i as int));
            assert(all.take(i + 1).last().label == self.rows@[i as int].label@);
            let n = self.rows[i].label.as_str().unicode_len();
            if n > widest {
                widest = n;
            }
            i += 1;
        }
        assert(all.take(i as int) =~= all);
        widest
    }

    fn lines(&self) -> (r: Vec<StyledLine>)
        ensures
            dialogs::line_models(r@) == row_lines(self@),
    {
        let ghost picker = self@;
        let mut lines: Vec<StyledLine> = Vec::new();
        let mut i: usize = 0;
        assert(dialogs::line_models(lines@) =~= row_lines(picker).take(0));
        while i < self.rows.len()
            invariant
                i <= self.rows.len(),
                picker == self@,
                dialogs::line_models(lines@) == row_lines(picker).take(i as int),
            decreases self.rows.len() - i,
        {
            let is_selected = i == self.selected;
            let prefix = if is_selected {
                "> "
            } else {
                "  "
            };
            let tone = if is_selected {
                Tone::AccentBold
            } else {
                Tone::Text
            };
            let row = &self.rows[i];
            assert(picker.rows[i as int].label == row.label@);
            assert(picker.rows[i as int].choice == row.choice@);
            let mut line = line_of_two(
                styled(prefix.to_owned(), tone),
                styled(row.label.clone(), tone),
            );
            if same_choice(&row.choice, &self.current) {
                add_span(&mut line, styled("  (current)".to_owned(), Tone::Running));
            }
            let ghost all = row_lines(picker);
            assert(line@ == all[i as int]);
            assert(all.take(i + 1) =~= all.take(i as int).push(all[i as int]));
            add_line(&mut lines, line);
            i += 1;
        }
        assert(row_lines(picker).take(i as int) =~= row_lines(picker));
        lines
    }

    /// Whether the dialog can be laid out in an area: the sizes it works with
    /// are those of screens.
    pub fn can_render(&self, area: Rect) -> (r: bool)
        ensures
            r == ({
                &&& area.x + area.width <= u16::MAX
                &&& area.y + area.height <= u16::MAX
                &&& in_cells(widest_label(self@.rows)) + 16 <= u16::MAX
                &&& dialog_height(self@.rows) <= u16::MAX
            }),
    {
        area.x <= u16::MAX - area.width && area.y <= u16::MAX - area.height && self.widest() % 65536
            + 16 <= 65535 && self.rows.len() % 65536 + 5 <= 65535
    }

    /// Lay the dialog out in an area. The places of the dialog and of its
    /// rows are kept for clicks.
    pub fn render(&mut self, area: Rect) -> (r: PickerView)
        requires
            area.x + area.width <= u16::MAX,
            area.y + area.height <= u16::MAX,
            in_cells(widest_label(old(self)@.rows)) + 16 <= u16::MAX,
            dialog_height(old(self)@.rows) <= u16::MAX,
        ensures
            r.dialog == dialogs::centered(
                area,
                dialog_width(old(self)@.rows) as u16,
                dialog_height(old(self)@.rows) as u16,
            ),
            (r.list.x, r.list.y, r.list.width, r.list.height) == part_of(r.dialog, 0),
            (r.hint.x, r.hint.y, r.hint.width, r.hint.height) == part_of(r.dialog, 1),
            dialogs::line_models(r.lines@) == row_lines(old(self)@),
            r.hint_line@ == hint_line(),
            final(self)@ == (PickerModel {
                list_area: r.list,
                dialog_area: r.dialog,
                ..old(self)@
            }),
            picker_ok(final(self)@),
    {
        proof {
            use_type_invariant(&*self);
        }
        let wanted: usize = self.widest() % 65536 + 16;
        let width: u16 = if wanted < 32 {
            32
        } else if wanted > 60 {
            60
        } else {
            wanted as u16
        };
        let height: u16 = (self.rows.len() % 65536) as u16 + 5;
        let dialog = centered_rect(area, width, height);
        let inner = bordered_inner(dialog);
        let parts = split_vertically(inner, 1, 1, 1);
        let list = parts[0];
        let hint = parts[1];
        assert(dialogs::rect_numbers(parts@)[0] == (list.x, list.y, list.width, list.height));
        assert(dialogs::rect_numbers(parts@)[1] == (hint.x, hint.y, hint.width, hint.height));
        let lines = self.lines();
        let mut hints = line_of_two(
            styled("Enter".to_owned(), Tone::Hint),
            styled(" select  ".to_owned(), Tone::Plain),
        );
        add_span(&mut hints, styled("Esc".to_owned(), Tone::Hint));
        add_span(&mut hints, styled(" close".to_owned(), Tone::Plain));
        assert(hints@ =~= hint_line());
        self.dialog_area = dialog;
        self.list_area = list;
        PickerView { dialog, list, hint, lines, hint_line: hints }
    }
}

/// The picker opens on the current choice, and that choice is always listed:
/// Enter at once changes nothing.
pub proof fn picker_opens_on_current(
    labels: SortLabels,
    plugins: Seq<LoadedPlugin>,
    order: SortOrder,
    plugin: Option<(Seq<char>, Seq<char>)>,
)
    ensures
        ({
            let rows = all_rows(labels, plugins);
            let current = current_choice(rows, order, plugin);
            choice_place(rows, current) < rows.len() && rows[choice_place(
                rows,
                current,
            ) as int].choice == current
        }),
{
    let rows = all_rows(labels, plugins);
    core_order_is_listed(labels, plugins, order);
    choice_place_bounds(rows, current_choice(rows, order, plugin));
}

/// The arrows never leave the rows, however often they are pressed.
pub proof fn navigation_clamps(picker: PickerModel, key: Key)
    requires
        picker_ok(picker),
    ensures
        0 <= selected_after(picker, key) < picker.rows.len(),
        selected_after(picker, key) - picker.selected <= 1,
        picker.selected - selected_after(picker, key) <= 1,
{
}

/// Whether a plugin that takes part contributes a sort mode.
pub open spec fn contributes_mode(
    plugins: Seq<LoadedPlugin>,
    plugin_id: Seq<char>,
    contribution_id: Seq<char>,
) -> bool {
    exists|d: DeclaredModel|
        {
            &&& #[trigger] ui::declared_in(plugins, UiSlot::SessionListSortKey).contains(d)
            &&& d.plugin_id == plugin_id
            &&& d.contribution.id == contribution_id
        }
}

proof fn listed_modes(
    labels: SortLabels,
    plugins: Seq<LoadedPlugin>,
    plugin_id: Seq<char>,
    contribution_id: Seq<char>,
)
    ensures
        ({
            let rows = all_rows(labels, plugins);
            let wanted = SortChoiceModel::Plugin { plugin_id, contribution_id };
            choice_place(rows, wanted) < rows.len() <==> contributes_mode(
                plugins,
                plugin_id,
                contribution_id,
            )
        }),
{
    broadcast use vstd::seq_lib::group_to_multiset_ensures;

    let given = ui::declared_in(plugins, UiSlot::SessionListSortKey);
    let modes = sort_modes(plugins);
    let rows = all_rows(labels, plugins);
    let wanted = SortChoiceModel::Plugin { plugin_id, contribution_id };
    sorting::sorting_keeps_rows::<(String, UiContribution)>(given);
    choice_place_bounds(rows, wanted);
    let at = choice_place(rows, wanted) as int;
    if at < rows.len() {
        assert(at >= 6);
        let d = modes[at - 6];
        assert(rows[at] == plugin_row(d));
        assert(modes.contains(d));
        assert(modes.to_multiset().count(d) > 0);
        assert(given.to_multiset().count(d) > 0);
        assert(given.contains(d));
    }
    if contributes_mode(plugins, plugin_id, contribution_id) {
        let d = choose|d: DeclaredModel|
            {
                &&& #[trigger] given.contains(d)
                &&& d.plugin_id == plugin_id
                &&& d.contribution.id == contribution_id
            };
        assert(given.to_multiset().count(d) > 0);
        assert(modes.to_multiset().count(d) > 0);
        assert(modes.contains(d));
        let k = choose|k: int| 0 <= k < modes.len() && modes[k] == d;
        assert(rows[k + 6] == plugin_row(d));
    }
}

/// Enter at once submits what is current: the plugin's sort mode while a
/// plugin that takes part contributes it, and the core order in every other
/// case. A mode that vanished never turns into whatever the first row is.
pub proof fn enter_at_once_keeps_the_choice(
    labels: SortLabels,
    plugins: Seq<LoadedPlugin>,
    order: SortOrder,
    plugin: Option<(Seq<char>, Seq<char>)>,
)
    ensures
        key_result(opened_picker(labels, plugins, order, plugin), Key::Enter)
            == PickerResult::Submit(
            match plugin {
                Some((plugin_id, contribution_id)) => if contributes_mode(
                    plugins,
                    plugin_id,
                    contribution_id,
                ) {
                    SortChoiceModel::Plugin { plugin_id, contribution_id }
                } else {
                    SortChoiceModel::Core(order)
                },
                None => SortChoiceModel::Core(order),
            },
        ),
        opened_picker(labels, plugins, order, None).selected == order_place(order),
{
    picker_opens_on_current(labels, plugins, order, plugin);
    if let Some((plugin_id, contribution_id)) = plugin {
        listed_modes(labels, plugins, plugin_id, contribution_id);
    }
    let rows = all_rows(labels, plugins);
    core_order_is_listed(labels, plugins, order);
    choice_place_bounds(rows, SortChoiceModel::Core(order));
    let at = choice_place(rows, SortChoiceModel::Core(order)) as int;
    assert(core_options()[order_place(order)] == order);
    assert(rows[order_place(order)].choice == SortChoiceModel::Core(order));
    assert(at <= order_place(order));
    assert(rows[at].choice == SortChoiceModel::Core(core_options()[at]));
}

/// The picker lists the six core orders, each under its own label, and below
/// them every sort mode that plugins contribute, in the order in which they are
/// declared, each under its title and its plugin.
pub proof fn every_choice_has_its_row(labels: SortLabels, plugins: Seq<LoadedPlugin>, i: int)
    ensures
        ({
            let rows = all_rows(labels, plugins);
            let modes = sorting::stable_sorted::<(String, UiContribution)>(
                ui::declared_in(plugins, UiSlot::SessionListSortKey),
            );
            &&& rows.len() == 6 + modes.len()
            &&& modes.len() == ui::declared_in(plugins, UiSlot::SessionListSortKey).len()
            &&& rows[0] == (RowModel {
                choice: SortChoiceModel::Core(SortOrder::Newest),
                label: labels.newest@,
            })
            &&& rows[1] == (RowModel {
                choice: SortChoiceModel::Core(SortOrder::Attention),
                label: labels.attention@,
            })
            &&& rows[2] == (RowModel {
                choice: SortChoiceModel::Core(SortOrder::LastActivity),
                label: labels.last_activity@,
            })
            &&& rows[3] == (RowModel {
                choice: SortChoiceModel::Core(SortOrder::Oldest),
                label: labels.oldest@,
            })
            &&& rows[4] == (RowModel {
                choice: SortChoiceModel::Core(SortOrder::AZ),
                label: labels.az@,
            })
            &&& rows[5] == (RowModel {
                choice: SortChoiceModel::Core(SortOrder::ZA),
                label: labels.za@,
            })
            &&& 0 <= i < modes.len() ==> rows[6 + i].label == modes[i].contribution.title + " ("@
                + modes[i].plugin_id + ")"@
            &&& 0 <= i < modes.len() ==> rows[6 + i].choice == (SortChoiceModel::Plugin {
                plugin_id: modes[i].plugin_id,
                contribution_id: modes[i].contribution.id,
            })
        }),
{
    broadcast use vstd::seq_lib::group_to_multiset_ensures;

    let given = ui::declared_in(plugins, UiSlot::SessionListSortKey);
    let modes = sort_modes(plugins);
    sorting::sorting_keeps_rows::<(String, UiContribution)>(given);
    assert(given.to_multiset().len() == modes.to_multiset().len());
    if 0 <= i < modes.len() {
        assert(plugin_row(modes[i]).label =~= modes[i].contribution.title + " ("@
            + modes[i].plugin_id + ")"@);
    }
}

/// The arrows and their letters move the selection by one row, and not past
/// the first or the last one; every other key leaves it. Esc closes the picker
/// without a choice, Enter with that of the selected row, and every other key
/// keeps it open.
pub proof fn keys_move_and_choose(picker: PickerModel, key: Key)
    requires
        0 <= picker.selected < picker.rows.len(),
    ensures
        ({
            let up = key is Up || key == Key::Char('k');
            let down = key is Down || key == Key::Char('j');
            let after = selected_after(picker, key);
            &&& up && picker.selected > 0 ==> after == picker.selected - 1
            &&& up && picker.selected == 0 ==> after == 0
            &&& down && picker.selected < picker.rows.len() - 1 ==> after == picker.selected + 1
            &&& down && picker.selected == picker.rows.len() - 1 ==> after == picker.selected
            &&& !up && !down ==> after == picker.selected
        }),
        key is Esc <==> key_result(picker, key) is Cancel,
        key is Enter <==> key_result(picker, key) is Submit,
        key is Enter ==> key_result(picker, key) == PickerResult::Submit(
            picker.rows[picker.selected].choice,
        ),
{
}

/// The row under a cell of the list is the one as many rows below the first as
/// the cell is below the top of the list; there is none under a cell outside of
/// the list or below the last row.
pub proof fn cells_show_their_rows(picker: PickerModel, col: u16, row: u16, i: int)
    ensures
        ({
            let area = picker.list_area;
            let inside = area.x <= col && col < area.x + area.width && col < 65535 && area.y <= row
                && row < area.y + area.height && row < 65535;
            &&& row_at(picker, col, row) == Some(i) <==> inside && row == area.y + i && i
                < picker.rows.len()
            &&& row_at(picker, col, row) is None <==> !inside || row - area.y >= picker.rows.len()
        }),
{
}

/// Before it is first laid out the picker has no cell, so that every click is
/// outside of it.
pub proof fn unrendered_pickers_have_no_cells(
    labels: SortLabels,
    plugins: Seq<LoadedPlugin>,
    order: SortOrder,
    plugin: Option<(Seq<char>, Seq<char>)>,
    col: u16,
    row: u16,
)
    ensures
        ({
            let picker = opened_picker(labels, plugins, order, plugin);
            &&& picker.rows == all_rows(labels, plugins)
            &&& row_at(picker, col, row) is None
            &&& !dialogs::holds_cell(picker.dialog_area, col, row)
        }),
{
}

/// No label is longer than the widest one, which is the label of some row.
pub proof fn widest_labels_are_labels(rows: Seq<RowModel>, i: int)
    ensures
        0 <= i < rows.len() ==> rows[i].label.len() <= widest_label(rows),
        rows.len() > 0 ==> exists|j: int|
            0 <= j < rows.len() && (#[trigger] rows[j]).label.len() == widest_label(rows),
        rows.len() == 0 ==> widest_label(rows) == 0,
    decreases rows.len(),
{
    if rows.len() > 0 {
        let head = rows.drop_last();
        widest_labels_are_labels(head, i);
        if 0 <= i < head.len() {
            assert(head[i] == rows[i]);
        }
        if rows.last().label.len() > widest_label(head) {
            assert(rows[rows.len() - 1].label.len() == widest_label(rows));
        } else if head.len() > 0 {
            let j = choose|j: int|
                0 <= j < head.len() && (#[trigger] head[j]).label.len() == widest_label(head);
            assert(rows[j].label.len() == widest_label(rows));
        } else {
            assert(rows[0].label.len() == widest_label(rows));
        }
    }
}

/// The dialog has room for every label that fits in it: it is 16 cells wider
/// than the widest one, but no narrower than 32 and no wider than 60 cells. It
/// is five cells higher than there are rows.
pub proof fn dialogs_fit_their_rows(rows: Seq<RowModel>, i: int)
    requires
        rows.len() < 65536,
        forall|j: int| 0 <= j < rows.len() ==> (#[trigger] rows[j]).label.len() < 65536,
    ensures
        32 <= dialog_width(rows) <= 60,
        0 <= i < rows.len() ==> dialog_width(rows) == 60 || dialog_width(rows)
            >= rows[i].label.len() + 16,
        dialog_width(rows) > 32 ==> exists|j: int|
            0 <= j < rows.len() && (#[trigger] rows[j]).label.len() + 16 >= dialog_width(rows),
        dialog_height(rows) == rows.len() + 5,
{
    widest_labels_are_labels(rows, i);
    if rows.len() > 0 {
        let j = choose|j: int|
            0 <= j < rows.len() && (#[trigger] rows[j]).label.len() == widest_label(rows);
        assert(rows[j].label.len() < 65536);
    }
}

/// Every row has its line, with its label; only the selected one is pointed
/// at and set off, and only the current choice is marked as such.
pub proof fn lines_mark_the_selection(picker: PickerModel, i: int)
    ensures
        row_lines(picker).len() == picker.rows.len(),
        0 <= i < picker.rows.len() ==> ({
            let line = row_lines(picker)[i];
            let current = picker.rows[i].choice == picker.current;
            &&& line[1].text == picker.rows[i].label
            &&& i == picker.selected ==> line[0].text == "> "@ && line[0].tone is AccentBold
                && line[1].tone is AccentBold
            &&& i != picker.selected ==> line[0].text == "  "@ && line[0].tone is Text
                && line[1].tone is Text
            &&& current ==> line.len() == 3 && line[2].text == "  (current)"@ && line[2].tone
                is Running
            &&& !current ==> line.len() == 2
        }),
{
}

/// Below the rows stand the two keys that close the picker, each before what
/// it does.
pub proof fn hints_name_the_keys()
    ensures
        ({
            let line = hint_line();
            &&& line.len() == 4
            &&& line[0].text == "Enter"@ && line[0].tone is Hint
            &&& line[1].text == " select  "@ && line[1].tone is Plain
            &&& line[2].text == "Esc"@ && line[2].tone is Hint
            &&& line[3].text == " close"@ && line[3].tone is Plain
        }),
{
}

/// The list and the hint are laid out inside of the border, with a margin of
/// one cell: the list of at least one row above the hint of one row.
pub proof fn parts_are_laid_out_inside(dialog: Rect, i: int)
    requires
        dialog.x + dialog.width <= u16::MAX,
        dialog.y + dialog.height <= u16::MAX,
        dialog.width >= 2,
        dialog.height >= 2,
    ensures
        part_of(dialog, i) == dialogs::layout_parts(
            (dialog.x + 1) as u16,
            (dialog.y + 1) as u16,
            (dialog.width - 2) as u16,
            (dialog.height - 2) as u16,
            1,
            1,
            1,
        )[i],
{
}

/// What contracts say of a choice and of what a key or a click does is all that
/// they hold.
pub proof fn choice_models_are_faithful(
    order: SortOrder,
    plugin_id: String,
    contribution_id: String,
    choice: SortChoice,
)
    ensures
        SortChoice::Core(order)@ == SortChoiceModel::Core(order),
        (SortChoice::Plugin { plugin_id, contribution_id })@ == (SortChoiceModel::Plugin {
            plugin_id: plugin_id@,
            contribution_id: contribution_id@,
        }),
        picker_result(DialogResult::Continue) is Continue,
        picker_result(DialogResult::Cancel) is Cancel,
        picker_result(DialogResult::Submit(choice)) == PickerResult::Submit(choice@),
        optional_pair(Some((plugin_id, contribution_id))) == Some((plugin_id@, contribution_id@)),
        optional_pair(None) is None,
{
}

} // verus!
