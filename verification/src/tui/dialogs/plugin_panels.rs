//! Plugin panels dialog: the TUI surface for block-content UI contributions
//! (`dashboard-card`, `session-detail-panel`, `session-detail-header-badge`)
//! and the plugin notification ring. Opens from the command palette; content
//! comes from the cached UI state store, so rendering never waits on a
//! plugin worker.

use vstd::prelude::*;

use crate::plugin::registry::LoadedPlugin;
use crate::plugin::registry::PluginRegistry;
use crate::plugin::ui;
use crate::plugin::ui::entries;
use crate::plugin::ui::notifications;
use crate::plugin::ui::Block;
use crate::plugin::ui::BlockModel;
use crate::plugin::ui::EntryModel;
use crate::plugin::ui::Notification;
use crate::plugin::ui::NotificationModel;
use crate::plugin::ui::PayloadModel;
use crate::plugin::ui::StoreModel;
use crate::plugin::ui::UiEntry;
use crate::plugin::ui::UiPayload;
use crate::plugin::ui::UiStore;
use crate::plugin_api::manifest::UiSlot;
use crate::text;
use crate::text::concat2;
use crate::text::concat3;
use crate::tui::dialogs;
use crate::tui::dialogs::add_line;
use crate::tui::dialogs::add_span;
use crate::tui::dialogs::bordered_inner;
use crate::tui::dialogs::centered_rect;
use crate::tui::dialogs::empty_line;
use crate::tui::dialogs::line_of;
use crate::tui::dialogs::line_of_two;
use crate::tui::dialogs::styled;
use crate::tui::dialogs::DialogResult;
use crate::tui::dialogs::Key;
use crate::tui::dialogs::Rect;
use crate::tui::dialogs::SpanModel;
use crate::tui::dialogs::StyledLine;
use crate::tui::dialogs::Tone;

verus! {

/// The dialog.
#[derive(Debug)]
pub struct PluginPanelsDialog {
    /// Session whose detail panels show alongside the global cards: its id
    /// and its title.
    pub session: Option<(String, String)>,
    pub scroll: u16,
}

/// The scroll position after a key.
pub open spec fn scroll_after(scroll: u16, key: Key) -> u16 {
    match key {
        Key::Down | Key::Char('j') => if scroll < u16::MAX {
            (scroll + 1) as u16
        } else {
            scroll
        },
        Key::Up | Key::Char('k') => if scroll > 0 {
            (scroll - 1) as u16
        } else {
            scroll
        },
        _ => scroll,
    }
}

/// The lines of one block.
pub open spec fn block_lines(block: BlockModel) -> Seq<Seq<SpanModel>> {
    match block {
        BlockModel::Text { text, severity } => seq![
            seq![dialogs::span("  "@ + text, Tone::Tint(severity))],
        ],
        BlockModel::Kv { items } => items.map_values(
            |p: (Seq<char>, Seq<char>)|
                seq![
                    dialogs::span("  "@ + p.0 + ": "@, Tone::Dimmed),
                    dialogs::span(p.1, Tone::Text),
                ],
        ),
        BlockModel::List { items } => items.map_values(
            |item: Seq<char>| seq![dialogs::span("  - "@ + item, Tone::Text)],
        ),
        BlockModel::Metric { label, value } => seq![
            seq![
                dialogs::span("  "@ + value + " "@, Tone::AccentBold),
                dialogs::span(label, Tone::Dimmed),
            ],
        ],
    }
}

/// The lines of some blocks.
pub open spec fn blocks_lines(blocks: Seq<BlockModel>) -> Seq<Seq<SpanModel>>
    decreases blocks.len(),
{
    if blocks.len() == 0 {
        seq![]
    } else {
        blocks_lines(blocks.drop_last()) + block_lines(blocks.last())
    }
}

/// The lines so far, with an empty one to part them from what follows.
pub open spec fn parted(lines: Seq<Seq<SpanModel>>) -> Seq<Seq<SpanModel>> {
    if lines.len() > 0 {
        lines.push(seq![])
    } else {
        lines
    }
}

/// The lines so far, and those of an entry with blocks.
pub open spec fn with_entry(lines: Seq<Seq<SpanModel>>, entry: EntryModel) -> Seq<Seq<SpanModel>> {
    match entry.payload {
        PayloadModel::Blocks { severity, blocks } => parted(lines).push(
            seq![
                dialogs::span(entry.title, Tone::TintBold(severity)),
                dialogs::span("  ("@ + entry.plugin_id + ")"@, Tone::Dimmed),
            ],
        ) + blocks_lines(blocks),
        _ => lines,
    }
}

/// The lines so far, and those of some entries.
pub open spec fn with_entries(
    lines: Seq<Seq<SpanModel>>,
    list: Seq<EntryModel>,
) -> Seq<Seq<SpanModel>>
    decreases list.len(),
{
    if list.len() == 0 {
        lines
    } else {
        with_entry(with_entries(lines, list.drop_last()), list.last())
    }
}

/// The badges in the header of a session.
pub open spec fn badge_spans(badges: Seq<EntryModel>) -> Seq<SpanModel>
    decreases badges.len(),
{
    if badges.len() == 0 {
        seq![]
    } else {
        let head = badge_spans(badges.drop_last());
        match badges.last().payload {
            PayloadModel::Badge { text, severity, .. } => head.push(
                dialogs::span("  ["@ + text + "]"@, Tone::Tint(severity)),
            ),
            _ => head,
        }
    }
}

/// The lines so far, and those of a session that has something to show.
pub open spec fn with_session(
    lines: Seq<Seq<SpanModel>>,
    title: Seq<char>,
    badges: Seq<EntryModel>,
    panels: Seq<EntryModel>,
) -> Seq<Seq<SpanModel>> {
    if badges.len() == 0 && panels.len() == 0 {
        lines
    } else {
        with_entries(
            parted(lines).push(
                seq![dialogs::span("Session: "@ + title, Tone::TitleBold)] + badge_spans(badges),
            ),
            panels,
        )
    }
}

/// The line of a notification.
pub open spec fn note_line(note: NotificationModel) -> Seq<SpanModel> {
    let head = seq![
        dialogs::span("\u{2691} "@ + note.title, Tone::TintBold(note.severity)),
        dialogs::span("  ("@ + note.plugin_id + ")"@, Tone::Dimmed),
    ];
    if note.body.len() == 0 {
        head
    } else {
        head.push(dialogs::span("  "@ + note.body, Tone::Text))
    }
}

/// The lines so far, and those of the notifications.
pub open spec fn with_notes(
    lines: Seq<Seq<SpanModel>>,
    notes: Seq<NotificationModel>,
) -> Seq<Seq<SpanModel>> {
    if notes.len() == 0 {
        lines
    } else {
        parted(lines).push(seq![dialogs::span("Notifications"@, Tone::TitleBold)])
            + notes.map_values(|n: NotificationModel| note_line(n))
    }
}

/// What stands where there is nothing to show.
pub open spec fn nothing_line() -> Seq<SpanModel> {
    seq![
        dialogs::span(
            "No plugin panels or notifications. Plugins with ui contributions populate this view as they push state."@,
            Tone::Dimmed,
        ),
    ]
}

/// The lines so far, or the one that says that there are none, and the hint
/// below them.
pub open spec fn with_footer(lines: Seq<Seq<SpanModel>>) -> Seq<Seq<SpanModel>> {
    (if lines.len() == 0 {
        seq![nothing_line()]
    } else {
        lines
    }).push(seq![]).push(seq![dialogs::span("j/k scroll · esc close"@, Tone::Dimmed)])
}

/// The texts of the session.
pub open spec fn session_texts(session: Option<(String, String)>) -> Option<
    (Seq<char>, Seq<char>),
> {
    match session {
        Some((id, title)) => Some((id@, title@)),
        None => None,
    }
}

/// All lines of the dialog: the cards, the panels of the session, the
/// notifications, newest first.
pub open spec fn panel_lines(
    session: Option<(Seq<char>, Seq<char>)>,
    store: StoreModel,
    plugins: Seq<LoadedPlugin>,
    now_ms: u64,
) -> Seq<Seq<SpanModel>> {
    let cards = with_entries(
        seq![],
        ui::slot_entries(store.state, plugins, UiSlot::DashboardCard, None, now_ms),
    );
    let detail = match session {
        Some((id, title)) => with_session(
            cards,
            title,
            ui::slot_entries(
                store.state,
                plugins,
                UiSlot::SessionDetailHeaderBadge,
                Some(id),
                now_ms,
            ),
            ui::slot_entries(
                store.state,
                plugins,
                UiSlot::SessionDetailPanel,
                Some(id),
                now_ms,
            ),
        ),
        None => cards,
    };
    with_footer(with_notes(detail, store.notifications.reverse()))
}

fn part(lines: &mut Vec<StyledLine>)
    ensures
        dialogs::line_models(final(lines)@) == parted(dialogs::line_models(old(lines)@)),
{
    if lines.len() > 0 {
        add_line(lines, empty_line());
    }
}

fn push_block(lines: &mut Vec<StyledLine>, block: &Block)
    ensures
        dialogs::line_models(final(lines)@) == dialogs::line_models(old(lines)@) + block_lines(
            block@,
        ),
{
    let ghost before = dialogs::line_models(lines@);
    let ghost wanted = block_lines(block@);
    match block {
        Block::Text { text, severity } => {
            let shown = concat2("  ", text.as_str());
            add_line(lines, line_of(styled(shown, Tone::Tint(*severity))));
        },
        Block::Kv { items } => {
            let mut i: usize = 0;
            assert(dialogs::line_models(lines@) =~= before + wanted.take(0));
            while i < items.len()
                invariant
                    i <= items.len(),
                    *block == (Block::Kv { items: *items }),
                    wanted == block_lines(block@),
                    dialogs::line_models(lines@) == before + wanted.take(i as int),
                decreases items.len() - i,
            {
                let (k, v) = &items[i];
                let name = concat3("  ", k.as_str(), ": ");
                let line = line_of_two(styled(name, Tone::Dimmed), styled(v.clone(), Tone::Text));
                assert(ui::pair_texts(items@)[i as int] == (k@, v@));
                assert(wanted[i as int] == line@);
                add_line(lines, line);
                assert(wanted.take(i + 1) =~= wanted.take(i as int).push(wanted[i as int]));
                i += 1;
                assert(dialogs::line_models(lines@) =~= before + wanted.take(i as int));
            }
            assert(wanted.take(i as int) =~= wanted);
        },
        Block::List { items } => {
            let mut i: usize = 0;
            assert(dialogs::line_models(lines@) =~= before + wanted.take(0));
            while i < items.len()
                invariant
                    i <= items.len(),
                    *block == (Block::List { items: *items }),
                    wanted == block_lines(block@),
                    dialogs::line_models(lines@) == before + wanted.take(i as int),
                decreases items.len() - i,
            {
                let shown = concat2("  - ", items[i].as_str());
                let line = line_of(styled(shown, Tone::Text));
                assert(text::texts(items@)[i as int] == items@[i as int]@);
                assert(wanted[i as int] == line@);
                add_line(lines, line);
                assert(wanted.take(i + 1) =~= wanted.take(i as int).push(wanted[i as int]));
                i += 1;
                assert(dialogs::line_models(lines@) =~= before + wanted.take(i as int));
            }
            assert(wanted.take(i as int) =~= wanted);
        },
        Block::Metric { label, value } => {
            let shown = concat3("  ", value.as_str(), " ");
            let line = line_of_two(
                styled(shown, Tone::AccentBold),
                styled(label.clone(), Tone::Dimmed),
            );
            add_line(lines, line);
        },
    }
    assert(dialogs::line_models(lines@) =~= before + wanted);
}

/// Add the lines of an entry with blocks.
pub fn push_blocks_entry(lines: &mut Vec<StyledLine>, entry: &UiEntry)
    ensures
        dialogs::line_models(final(lines)@) == with_entry(
            dialogs::line_models(old(lines)@),
            entry@,
        ),
{
    let (severity, blocks) = match &entry.payload {
        UiPayload::Blocks { severity, blocks } => (*severity, blocks),
        _ => {
            return;
        },
    };
    part(lines);
    let owner = concat3("  (", entry.plugin_id.as_str(), ")");
    let header = line_of_two(
        styled(entry.title.clone(), Tone::TintBold(severity)),
        styled(owner, Tone::Dimmed),
    );
    add_line(lines, header);
    let ghost head = dialogs::line_models(lines@);
    let ghost all = ui::block_models(blocks@);
    let mut i: usize = 0;
    assert(dialogs::line_models(lines@) =~= head + blocks_lines(all.take(0)));
    while i < blocks.len()
        invariant
            i <= blocks.len(),
            all == ui::block_models(blocks@),
            dialogs::line_models(lines@) == head + blocks_lines(all.take(i as int)),
        decreases blocks.len() - i,
    {
        assert(all.take(i + 1).drop_last() =~= all.take(i as int));
        assert(all.take(i + 1).last() == blocks@[i as int]@);
        push_block(lines, &blocks[i]);
        i += 1;
        assert(dialogs::line_models(lines@) =~= head + blocks_lines(all.take(i as int)));
    }
    assert(all.take(i as int) =~= all);
}

fn push_entries(lines: &mut Vec<StyledLine>, list: &Vec<UiEntry>)
    ensures
        dialogs::line_models(final(lines)@) == with_entries(
            dialogs::line_models(old(lines)@),
            ui::entry_models(list@),
        ),
{
    let ghost before = dialogs::line_models(lines@);
    let ghost all = ui::entry_models(list@);
    let mut i: usize = 0;
    while i < list.len()
        invariant
            i <= list.len(),
            all == ui::entry_models(list@),
            dialogs::line_models(lines@) == with_entries(before, all.take(i as int)),
        decreases list.len() - i,
    {
        assert(all.take(i + 1).drop_last() =~= all.take(i as int));
        assert(all.take(i + 1).last() == list@[i as int]@);
        push_blocks_entry(lines, &list[i]);
        i += 1;
    }
    assert(all.take(i as int) =~= all);
}

fn push_session(
    lines: &mut Vec<StyledLine>,
    title: &str,
    badges: &Vec<UiEntry>,
    panels: &Vec<UiEntry>,
)
    ensures
        dialogs::line_models(final(lines)@) == with_session(
            dialogs::line_models(old(lines)@),
            title@,
            ui::entry_models(badges@),
            ui::entry_models(panels@),
        ),
{
    if badges.len() == 0 && panels.len() == 0 {
        return;
    }
    part(lines);
    let mut header = line_of(styled(concat2("Session: ", title), Tone::TitleBold));
    let ghost first = header@;
    let ghost all = ui::entry_models(badges@);
    let mut i: usize = 0;
    assert(header@ =~= first + badge_spans(all.take(0)));
    while i < badges.len()
        invariant
            i <= badges.len(),
            all == ui::entry_models(badges@),
            header@ == first + badge_spans(all.take(i as int)),
        decreases badges.len() - i,
    {
        assert(all.take(i + 1).drop_last() =~= all.take(i as int));
        assert(all.take(i + 1).last() == badges@[i as int]@);
        if let UiPayload::Badge { text, severity, .. } = &badges[i].payload {
            let shown = concat3("  [", text.as_str(), "]");
            add_span(&mut header, styled(shown, Tone::Tint(*severity)));
        }
        i += 1;
        assert(header@ =~= first + badge_spans(all.take(i as int)));
    }
    assert(all.take(i as int) =~= all);
    add_line(lines, header);
    push_entries(lines, panels);
}

fn push_note(lines: &mut Vec<StyledLine>, note: &Notification)
    ensures
        dialogs::line_models(final(lines)@) == dialogs::line_models(old(lines)@).push(
            note_line(note@),
        ),
{
    let title = concat2("\u{2691} ", note.title.as_str());
    let owner = concat3("  (", note.plugin_id.as_str(), ")");
    let mut line = line_of_two(
        styled(title, Tone::TintBold(note.severity)),
        styled(owner, Tone::Dimmed),
    );
    if note.body.as_str().unicode_len() > 0 {
        add_span(&mut line, styled(concat2("  ", note.body.as_str()), Tone::Text));
    }
    add_line(lines, line);
}

fn push_notes(lines: &mut Vec<StyledLine>, notes: &Vec<Notification>)
    ensures
        dialogs::line_models(final(lines)@) == with_notes(
            dialogs::line_models(old(lines)@),
            ui::notification_models(notes@),
        ),
{
    if notes.len() == 0 {
        return;
    }
    part(lines);
    add_line(lines, line_of(styled("Notifications".to_owned(), Tone::TitleBold)));
    let ghost head = dialogs::line_models(lines@);
    let ghost all = ui::notification_models(notes@);
    let ghost wanted = all.map_values(|n: NotificationModel| note_line(n));
    let mut i: usize = 0;
    assert(dialogs::line_models(lines@) =~= head + wanted.take(0));
    while i < notes.len()
        invariant
            i <= notes.len(),
            all == ui::notification_models(notes@),
            wanted == all.map_values(|n: NotificationModel| note_line(n)),
            dialogs::line_models(lines@) == head + wanted.take(i as int),
        decreases notes.len() - i,
    {
        push_note(lines, &notes[i]);
        assert(wanted[i as int] == note_line(notes@[i as int]@));
        assert(wanted.take(i + 1) =~= wanted.take(i as int).push(wanted[i as int]));
        i += 1;
        assert(dialogs::line_models(lines@) =~= head + wanted.take(i as int));
    }
    assert(wanted.take(i as int) =~= wanted);
}

/// What the dialog shows, and where.
#[derive(Debug)]
pub struct PanelsView {
    /// The whole dialog, with its border and the title ` Plugin panels `.
    pub dialog: Rect,
    pub inner: Rect,
    /// Wrapped at the width of `inner`.
    pub lines: Vec<StyledLine>,
    /// How many rows are scrolled away.
    pub scroll: u16,
}

/// `n`, but within bounds.
pub open spec fn clamped(n: u16, low: u16, high: u16) -> u16 {
    if n < low {
        low
    } else if n > high {
        high
    } else {
        n
    }
}

fn clamp(n: u16, low: u16, high: u16) -> (r: u16)
    ensures
        r == clamped(n, low, high),
{
    if n < low {
        low
    } else if n > high {
        high
    } else {
        n
    }
}

impl PluginPanelsDialog {
    /// Open the dialog, for a session or without one.
    pub fn new(session: Option<(String, String)>) -> (r: Self)
        ensures
            r.session == session,
            r.scroll == 0,
    {
        PluginPanelsDialog { session, scroll: 0 }
    }

    /// A key: Esc and `q` close the dialog, the arrows scroll it.
    pub fn handle_key(&mut self, key: Key) -> (r: DialogResult<()>)
        ensures
            r == (if key is Esc || key == Key::Char('q') {
                DialogResult::<()>::Cancel
            } else {
                DialogResult::<()>::Continue
            }),
            final(self).session == old(self).session,
            final(self).scroll == scroll_after(old(self).scroll, key),
    {
        match key {
            Key::Esc | Key::Char('q') => DialogResult::Cancel,
            Key::Down | Key::Char('j') => {
                if self.scroll < u16::MAX {
                    self.scroll = self.scroll + 1;
                }
                DialogResult::Continue
            },
            Key::Up | Key::Char('k') => {
                if self.scroll > 0 {
                    self.scroll = self.scroll - 1;
                }
                DialogResult::Continue
            },
            _ => DialogResult::Continue,
        }
    }

    /// Lay the dialog out in an area and fill it from the store.
    pub fn render(
        &self,
        area: Rect,
        store: &UiStore,
        registry: &PluginRegistry,
        now_ms: u64,
    ) -> (r: PanelsView)
        requires
            area.x + area.width <= u16::MAX,
            area.y + area.height <= u16::MAX,
        ensures
            r.dialog == dialogs::centered(
                area,
                clamped(area.width, 40, 100),
                clamped(area.height, 12, 32),
            ),
            r.inner == dialogs::inside_border(r.dialog),
            r.scroll == self.scroll,
            dialogs::line_models(r.lines@) == panel_lines(
                session_texts(self.session),
                store@,
                registry.plugins@,
                now_ms,
            ),
    {
        let dialog = centered_rect(area, clamp(area.width, 40, 100), clamp(area.height, 12, 32));
        let inner = bordered_inner(dialog);
        let mut lines: Vec<StyledLine> = Vec::new();
        assert(dialogs::line_models(lines@) =~= seq![]);
        let cards = entries(store, registry, UiSlot::DashboardCard, None, now_ms);
        push_entries(&mut lines, &cards);
        if let Some((session_id, title)) = &self.session {
            let wanted = Some(session_id.as_str());
            let badges = entries(
                store,
                registry,
                UiSlot::SessionDetailHeaderBadge,
                wanted,
                now_ms,
            );
            let panels = entries(store, registry, UiSlot::SessionDetailPanel, wanted, now_ms);
            push_session(&mut lines, title.as_str(), &badges, &panels);
        }
        push_notes(&mut lines, &notifications(store));
        if lines.len() == 0 {
            let message = "No plugin panels or notifications. Plugins with ui contributions populate this view as they push state.";
            add_line(&mut lines, line_of(styled(message.to_owned(), Tone::Dimmed)));
            assert(dialogs::line_models(lines@) =~= seq![nothing_line()]);
        }
        add_line(&mut lines, empty_line());
        let hint = styled("j/k scroll · esc close".to_owned(), Tone::Dimmed);
        add_line(&mut lines, line_of(hint));
        PanelsView { dialog, inner, lines, scroll: self.scroll }
    }
}

/// The arrows and their letters scroll by one row, and not past what numbers
/// reach; every other key leaves the position.
pub proof fn keys_scroll_by_one(scroll: u16, key: Key)
    ensures
        ({
            let up = key is Up || key == Key::Char('k');
            let down = key is Down || key == Key::Char('j');
            let after = scroll_after(scroll, key);
            &&& up && scroll > 0 ==> after == scroll - 1
            &&& up && scroll == 0 ==> after == 0
            &&& down && scroll < 65535 ==> after == scroll + 1
            &&& down && scroll == 65535 ==> after == 65535
            &&& !up && !down ==> after == scroll
        }),
{
}

/// Each kind of block has its lines: a text is one line in its tint, a table
/// has a line per pair and a list one per item, in order, and a metric shows
/// its value before its label.
pub proof fn blocks_have_their_lines(
    text: Seq<char>,
    severity: ui::Severity,
    pairs: Seq<(Seq<char>, Seq<char>)>,
    items: Seq<Seq<char>>,
    label: Seq<char>,
    i: int,
)
    ensures
        block_lines(BlockModel::Text { text, severity }) == seq![
            seq![SpanModel { text: "  "@ + text, tone: Tone::Tint(severity) }],
        ],
        ({
            let lines = block_lines(BlockModel::Kv { items: pairs });
            &&& lines.len() == pairs.len()
            &&& 0 <= i < pairs.len() ==> lines[i] == seq![
                SpanModel { text: "  "@ + pairs[i].0 + ": "@, tone: Tone::Dimmed },
                SpanModel { text: pairs[i].1, tone: Tone::Text },
            ]
        }),
        ({
            let lines = block_lines(BlockModel::List { items });
            &&& lines.len() == items.len()
            &&& 0 <= i < items.len() ==> lines[i] == seq![
                SpanModel { text: "  - "@ + items[i], tone: Tone::Text },
            ]
        }),
        block_lines(BlockModel::Metric { label, value: text }) == seq![
            seq![
                SpanModel { text: "  "@ + text + " "@, tone: Tone::AccentBold },
                SpanModel { text: label, tone: Tone::Dimmed },
            ],
        ],
{
}

/// Blocks are shown one below the other, none left out.
pub proof fn blocks_follow_each_other(a: Seq<BlockModel>, b: Seq<BlockModel>, block: BlockModel)
    ensures
        blocks_lines(a + b) == blocks_lines(a) + blocks_lines(b),
        blocks_lines(seq![block]) == block_lines(block),
        blocks_lines(Seq::empty()).len() == 0,
    decreases b.len(),
{
    reveal_with_fuel(blocks_lines, 2);
    assert(seq![block].drop_last() =~= Seq::empty());
    assert(blocks_lines(seq![block]) =~= block_lines(block));
    if b.len() == 0 {
        assert(a + b =~= a);
        assert(blocks_lines(a) + blocks_lines(b) =~= blocks_lines(a));
    } else {
        blocks_follow_each_other(a, b.drop_last(), block);
        assert((a + b).drop_last() =~= a + b.drop_last());
        assert(blocks_lines(a + b) =~= blocks_lines(a) + blocks_lines(b));
    }
}

/// An entry with blocks is shown below what stands before it, behind an empty
/// line where something does: its title in the tint of its severity and its
/// plugin, then its blocks. An entry of another kind is not shown here.
pub proof fn entries_are_parted(lines: Seq<Seq<SpanModel>>, entry: EntryModel, i: int)
    ensures
        !(entry.payload is Blocks) ==> with_entry(lines, entry) == lines,
        entry.payload matches PayloadModel::Blocks { severity, blocks } ==> ({
            let all = with_entry(lines, entry);
            let at = if lines.len() == 0 {
                0
            } else {
                lines.len() + 1
            };
            &&& all.len() == at + 1 + blocks_lines(blocks).len()
            &&& 0 <= i < lines.len() ==> all[i] == lines[i]
            &&& lines.len() > 0 ==> all[lines.len() as int].len() == 0
            &&& all[at as int] == seq![
                SpanModel { text: entry.title, tone: Tone::TintBold(severity) },
                SpanModel { text: "  ("@ + entry.plugin_id + ")"@, tone: Tone::Dimmed },
            ]
            &&& 0 <= i < blocks_lines(blocks).len() ==> all[at + 1 + i] == blocks_lines(blocks)[i]
        }),
{
}

/// Entries are shown one by one, in order.
pub proof fn entries_follow_each_other(
    lines: Seq<Seq<SpanModel>>,
    a: Seq<EntryModel>,
    b: Seq<EntryModel>,
    entry: EntryModel,
)
    ensures
        with_entries(lines, a + b) == with_entries(with_entries(lines, a), b),
        with_entries(lines, seq![entry]) == with_entry(lines, entry),
        with_entries(lines, Seq::empty()) == lines,
    decreases b.len(),
{
    reveal_with_fuel(with_entries, 2);
    assert(seq![entry].drop_last() =~= Seq::empty());
    if b.len() == 0 {
        assert(a + b =~= a);
    } else {
        entries_follow_each_other(lines, a, b.drop_last(), entry);
        assert((a + b).drop_last() =~= a + b.drop_last());
    }
}

/// Badges are shown one behind the other, each in brackets and in the tint of
/// its severity; an entry that is no badge is left out.
pub proof fn badges_follow_each_other(a: Seq<EntryModel>, b: Seq<EntryModel>, badge: EntryModel)
    ensures
        badge_spans(a + b) == badge_spans(a) + badge_spans(b),
        badge.payload matches PayloadModel::Badge { text, severity, .. } ==> badge_spans(
            seq![badge],
        ) == seq![SpanModel { text: "  ["@ + text + "]"@, tone: Tone::Tint(severity) }],
        !(badge.payload is Badge) ==> badge_spans(seq![badge]).len() == 0,
        badge_spans(Seq::empty()).len() == 0,
    decreases b.len(),
{
    reveal_with_fuel(badge_spans, 2);
    assert(seq![badge].drop_last() =~= Seq::empty());
    if b.len() == 0 {
        assert(a + b =~= a);
        assert(badge_spans(a) + badge_spans(b) =~= badge_spans(a));
    } else {
        badges_follow_each_other(a, b.drop_last(), badge);
        assert((a + b).drop_last() =~= a + b.drop_last());
        assert(badge_spans(a + b) =~= badge_spans(a) + badge_spans(b));
    }
}

/// A session with badges or panels is shown below what stands before it, under
/// its title and its badges; one with neither is not shown at all.
pub proof fn sessions_are_shown(
    lines: Seq<Seq<SpanModel>>,
    title: Seq<char>,
    badges: Seq<EntryModel>,
    panels: Seq<EntryModel>,
)
    ensures
        badges.len() == 0 && panels.len() == 0 ==> with_session(lines, title, badges, panels)
            == lines,
        badges.len() > 0 || panels.len() > 0 ==> ({
            let header = seq![
                SpanModel { text: "Session: "@ + title, tone: Tone::TitleBold },
            ] + badge_spans(badges);
            let head = if lines.len() == 0 {
                seq![header]
            } else {
                lines + seq![Seq::empty(), header]
            };
            with_session(lines, title, badges, panels) == with_entries(head, panels)
        }),
{
    let header = seq![dialogs::span("Session: "@ + title, Tone::TitleBold)] + badge_spans(badges);
    if lines.len() == 0 {
        assert(parted(lines).push(header) =~= seq![header]);
    } else {
        assert(parted(lines).push(header) =~= lines + seq![Seq::empty(), header]);
    }
}

/// A notification is shown with its title in the tint of its severity, its
/// plugin, and its body where it has one.
pub proof fn notes_have_their_line(note: NotificationModel)
    ensures
        ({
            let line = note_line(note);
            &&& line.len() == (if note.body.len() == 0 {
                2nat
            } else {
                3
            })
            &&& line[0] == (SpanModel {
                text: "\u{2691} "@ + note.title,
                tone: Tone::TintBold(note.severity),
            })
            &&& line[1] == (SpanModel {
                text: "  ("@ + note.plugin_id + ")"@,
                tone: Tone::Dimmed,
            })
            &&& note.body.len() > 0 ==> line[2] == (SpanModel {
                text: "  "@ + note.body,
                tone: Tone::Text,
            })
        }),
{
}

/// The dialog ends in an empty line and the hint. Above them stand the
/// notifications, the newest on top, under their heading; with no card, no
/// session and no notification one line says that there is nothing.
pub proof fn notes_come_newest_first(
    session: Option<(Seq<char>, Seq<char>)>,
    store: StoreModel,
    plugins: Seq<LoadedPlugin>,
    now_ms: u64,
    i: int,
)
    ensures
        ({
            let lines = panel_lines(session, store, plugins, now_ms);
            let n = lines.len();
            let notes = store.notifications;
            &&& n >= 3
            &&& lines[n - 1] == seq![
                SpanModel { text: "j/k scroll · esc close"@, tone: Tone::Dimmed },
            ]
            &&& lines[n - 2].len() == 0
            &&& notes.len() > 0 ==> n >= notes.len() + 3 && lines[n - 3 - notes.len()] == seq![
                SpanModel { text: "Notifications"@, tone: Tone::TitleBold },
            ]
            &&& 0 <= i < notes.len() ==> lines[n - 3 - i] == note_line(notes[i])
            &&& notes.len() == 0 && session is None && ui::slot_entries(
                store.state,
                plugins,
                UiSlot::DashboardCard,
                None,
                now_ms,
            ).len() == 0 ==> n == 3 && lines[0].len() == 1
        }),
{
}

/// The cards of the dashboard come first, then, behind them, the badges and the
/// panels of the session that the dialog was opened for, if any.
pub proof fn cards_come_before_sessions(
    session: Option<(Seq<char>, Seq<char>)>,
    store: StoreModel,
    plugins: Seq<LoadedPlugin>,
    now_ms: u64,
    i: int,
)
    ensures
        ({
            let lines = panel_lines(session, store, plugins, now_ms);
            let cards = with_entries(
                Seq::empty(),
                ui::slot_entries(store.state, plugins, UiSlot::DashboardCard, None, now_ms),
            );
            let shown = match session {
                Some((id, title)) => with_session(
                    cards,
                    title,
                    ui::slot_entries(
                        store.state,
                        plugins,
                        UiSlot::SessionDetailHeaderBadge,
                        Some(id),
                        now_ms,
                    ),
                    ui::slot_entries(
                        store.state,
                        plugins,
                        UiSlot::SessionDetailPanel,
                        Some(id),
                        now_ms,
                    ),
                ),
                None => cards,
            };
            &&& lines.len() >= shown.len() + 2
            &&& 0 <= i < shown.len() ==> lines[i] == shown[i]
            &&& shown.len() > 0 && store.notifications.len() == 0 ==> lines.len() == shown.len() + 2
            &&& shown.len() > 0 && store.notifications.len() > 0 ==> lines.len() == shown.len() + 4
                + store.notifications.len()
            &&& shown.len() == 0 && store.notifications.len() > 0 ==> lines.len() == 3
                + store.notifications.len()
        }),
{
    assert(seq![] =~= Seq::<Seq<SpanModel>>::empty());
}

/// The dialog fills an area up to 100 columns and 32 rows, and no more than
/// that of a larger one.
pub proof fn panels_fill_their_area(area: Rect)
    requires
        area.x + area.width <= u16::MAX,
        area.y + area.height <= u16::MAX,
    ensures
        ({
            let r = dialogs::centered(
                area,
                clamped(area.width, 40, 100),
                clamped(area.height, 12, 32),
            );
            &&& area.width <= 100 ==> r.x == area.x && r.width == area.width
            &&& area.width > 100 ==> r.width == 100
            &&& area.height <= 32 ==> r.y == area.y && r.height == area.height
            &&& area.height > 32 ==> r.height == 32
        }),
{
}

/// A number within bounds is kept, one outside of them becomes the nearer one.
pub proof fn clamping_keeps_within_bounds(n: u16, low: u16, high: u16)
    requires
        low <= high,
    ensures
        low <= clamped(n, low, high) <= high,
        low <= n <= high ==> clamped(n, low, high) == n,
        n < low ==> clamped(n, low, high) == low,
        n > high ==> clamped(n, low, high) == high,
{
}

/// What contracts say of the session of the dialog are its id and its title.
pub proof fn session_models_are_faithful(id: String, title: String)
    ensures
        session_texts(Some((id, title))) == Some((id@, title@)),
        session_texts(None) is None,
{
}

/// Where there is nothing to show, one dimmed line says so.
pub proof fn empty_panels_say_so(
    store: StoreModel,
    plugins: Seq<LoadedPlugin>,
    now_ms: u64,
)
    requires
        store.notifications.len() == 0,
        ui::slot_entries(store.state, plugins, UiSlot::DashboardCard, None, now_ms).len() == 0,
    ensures
        panel_lines(None, store, plugins, now_ms)[0] == seq![
            SpanModel {
                text: "No plugin panels or notifications. Plugins with ui contributions populate this view as they push state."@,
                tone: Tone::Dimmed,
            },
        ],
{
}

} // verus!
