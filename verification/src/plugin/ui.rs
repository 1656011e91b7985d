//! Host-side store for plugin UI contributions.
//!
//! Plugins never render. A worker pushes small typed payloads for the
//! contributions its manifest declares (`ui.state.set` / `ui.state.remove` /
//! `ui.notify`); the host validates payload shape against the slot, caches it
//! here, and both surfaces render from the cache with their own widgets.
//!
//! State is ephemeral by design: canonical plugin data belongs in
//! `plugin_meta`. A worker restart repushes; a disable/uninstall evicts via
//! [`evict_except`] on registry reload.

use vstd::prelude::*;

use crate::lists;
use crate::name_map::NameMap;
use crate::plugin::registry;
use crate::plugin::registry::LoadedPlugin;
use crate::plugin::registry::PluginRegistry;
use crate::plugin_api::manifest;
use crate::plugin_api::manifest::ContributionModel;
use crate::plugin_api::manifest::UiContribution;
use crate::plugin_api::manifest::UiSlot;
use crate::sorting;
use crate::sorting::stable_sort;
use crate::sorting::Ranked;
use crate::sorting::SortKey;
use crate::text;
use crate::text::concat2;
use crate::text::concat3;
use crate::text::contains_text;
use crate::text::copy_optional;
use crate::text::copy_texts;
use crate::text::debug_of;
use crate::text::join_texts;
use crate::text::same_text;
use crate::text::text_less;

verus! {

/// Severity tints shared by every slot payload; both surfaces map them to
/// theme colors.
#[derive(Debug, Clone, Copy, PartialEq, Eq, Structural)]
pub enum Severity {
    Info,
    Success,
    Warning,
    Error,
}

impl Default for Severity {
    fn default() -> (r: Self)
        ensures
            r == Severity::Info,
    {
        Severity::Info
    }
}

/// A 64-bit floating-point number by its bits, so that it can be kept and
/// handed on without arithmetic.
#[derive(Debug, Clone, Copy, PartialEq, Eq, Structural)]
pub struct FloatBits {
    pub bits: u64,
}

/// Infinities and NaN are the numbers whose exponent bits are all set.
pub open spec fn finite_bits(bits: u64) -> bool {
    (bits >> 52) & 0x7ff != 0x7ff
}

impl FloatBits {
    /// Whether this is neither infinite nor NaN.
    pub fn is_finite(self) -> (r: bool)
        ensures
            r == finite_bits(self.bits),
    {
        (self.bits >> 52) & 0x7ff != 0x7ff
    }
}

/// One block inside a card or panel. A deliberately tiny vocabulary the
/// host can render coherently in a terminal and in a browser.
#[derive(Debug, PartialEq)]
pub enum Block {
    Text { text: String, severity: Severity },
    /// Key-value rows.
    Kv { items: Vec<(String, String)> },
    /// Bulleted list.
    List { items: Vec<String> },
    /// One labelled number, rendered large where space allows.
    Metric { label: String, value: String },
}

/// Typed payload per slot; shape is the validation.
#[derive(Debug)]
pub enum UiPayload {
    /// `status-bar-segment`, `session-list-row-badge`,
    /// `session-detail-header-badge`.
    Badge { text: String, severity: Severity, tooltip: String },
    /// `session-list-column`: one cell; the manifest title is the header.
    Cell {
        text: String,
        severity: Severity,
        /// Optional numeric key so the column can order rows.
        sort_key: Option<FloatBits>,
    },
    /// `session-list-sort-key`: higher sorts first under this mode.
    SortKey { key: FloatBits, reason: String },
    /// `session-list-filter-facet`.
    Facets { values: Vec<String> },
    /// `dashboard-card`, `session-detail-panel`.
    Blocks { severity: Severity, blocks: Vec<Block> },
}

/// What contracts say of a block.
pub enum BlockModel {
    Text { text: Seq<char>, severity: Severity },
    Kv { items: Seq<(Seq<char>, Seq<char>)> },
    List { items: Seq<Seq<char>> },
    Metric { label: Seq<char>, value: Seq<char> },
}

/// What contracts say of a payload.
pub enum PayloadModel {
    Badge { text: Seq<char>, severity: Severity, tooltip: Seq<char> },
    Cell { text: Seq<char>, severity: Severity, sort_key: Option<FloatBits> },
    SortKey { key: FloatBits, reason: Seq<char> },
    Facets { values: Seq<Seq<char>> },
    Blocks { severity: Severity, blocks: Seq<BlockModel> },
}

/// The texts of key-value rows.
pub open spec fn pair_texts(items: Seq<(String, String)>) -> Seq<(Seq<char>, Seq<char>)> {
    items.map_values(|p: (String, String)| (p.0@, p.1@))
}

impl View for Block {
    type V = BlockModel;

    open spec fn view(&self) -> BlockModel {
        match *self {
            Block::Text { text, severity } => BlockModel::Text { text: text@, severity },
            Block::Kv { items } => BlockModel::Kv { items: pair_texts(items@) },
            Block::List { items } => BlockModel::List { items: text::texts(items@) },
            Block::Metric { label, value } => BlockModel::Metric { label: label@, value: value@ },
        }
    }
}

/// The models of a list of blocks.
pub open spec fn block_models(blocks: Seq<Block>) -> Seq<BlockModel> {
    blocks.map_values(|b: Block| b@)
}

impl View for UiPayload {
    type V = PayloadModel;

    open spec fn view(&self) -> PayloadModel {
        match *self {
            UiPayload::Badge { text, severity, tooltip } => PayloadModel::Badge {
                text: text@,
                severity,
                tooltip: tooltip@,
            },
            UiPayload::Cell { text, severity, sort_key } => PayloadModel::Cell {
                text: text@,
                severity,
                sort_key,
            },
            UiPayload::SortKey { key, reason } => PayloadModel::SortKey { key, reason: reason@ },
            UiPayload::Facets { values } => PayloadModel::Facets { values: text::texts(values@) },
            UiPayload::Blocks { severity, blocks } => PayloadModel::Blocks {
                severity,
                blocks: block_models(blocks@),
            },
        }
    }
}

pub const MAX_TEXT: usize = 200;

pub const MAX_BLOCKS: usize = 32;

pub const MAX_ITEMS: usize = 64;

pub const MAX_FACETS: usize = 8;

/// Whether a payload of this kind can stand in a slot.
pub open spec fn fits_slot(payload: PayloadModel, slot: UiSlot) -> bool {
    match payload {
        PayloadModel::Badge { .. } => slot is StatusBarSegment || slot is SessionListRowBadge
            || slot is SessionDetailHeaderBadge,
        PayloadModel::Cell { .. } => slot is SessionListColumn,
        PayloadModel::SortKey { .. } => slot is SessionListSortKey,
        PayloadModel::Facets { .. } => slot is SessionListFilterFacet,
        PayloadModel::Blocks { .. } => slot is DashboardCard || slot is SessionDetailPanel,
    }
}

/// Longer than a payload text may be.
pub open spec fn too_long(s: Seq<char>) -> bool {
    s.len() > MAX_TEXT
}

/// One of the texts is too long.
pub open spec fn any_too_long(items: Seq<Seq<char>>) -> bool {
    exists|i: int| 0 <= i < items.len() && too_long(#[trigger] items[i])
}

/// Why a block is refused.
pub open spec fn block_problem(block: BlockModel) -> Option<Seq<char>> {
    match block {
        BlockModel::Text { text, .. } => if too_long(text) {
            Some("block text longer than 200 chars"@)
        } else {
            None
        },
        BlockModel::Kv { items } => if items.len() > MAX_ITEMS || exists|i: int|
            0 <= i < items.len() && (too_long((#[trigger] items[i]).0) || too_long(items[i].1)) {
            Some("kv block too large"@)
        } else {
            None
        },
        BlockModel::List { items } => if items.len() > MAX_ITEMS || any_too_long(items) {
            Some("list block too large"@)
        } else {
            None
        },
        BlockModel::Metric { label, value } => if too_long(label) || too_long(value) {
            Some("metric block too large"@)
        } else {
            None
        },
    }
}

/// Why the first refused block is refused.
pub open spec fn blocks_problem(blocks: Seq<BlockModel>) -> Option<Seq<char>>
    decreases blocks.len(),
{
    if blocks.len() == 0 {
        None
    } else {
        match block_problem(blocks[0]) {
            Some(problem) => Some(problem),
            None => blocks_problem(blocks.drop_first()),
        }
    }
}

/// Why a payload is refused for its size or its numbers.
pub open spec fn size_problem(payload: PayloadModel) -> Option<Seq<char>> {
    match payload {
        PayloadModel::Badge { text, tooltip, .. } => if too_long(text) || too_long(tooltip) {
            Some("badge text/tooltip longer than 200 chars"@)
        } else {
            None
        },
        PayloadModel::Cell { text, .. } => if too_long(text) {
            Some("cell text longer than 200 chars"@)
        } else {
            None
        },
        PayloadModel::SortKey { key, reason } => if !finite_bits(key.bits) {
            Some("sort key must be finite"@)
        } else if too_long(reason) {
            Some("sort reason longer than 200 chars"@)
        } else {
            None
        },
        PayloadModel::Facets { values } => if values.len() > MAX_FACETS || any_too_long(values) {
            Some("at most 8 facets of 200 chars"@)
        } else {
            None
        },
        PayloadModel::Blocks { blocks, .. } => if blocks.len() > MAX_BLOCKS {
            Some("at most 32 blocks"@)
        } else {
            blocks_problem(blocks)
        },
    }
}

/// Why a payload is refused for a slot, or `None` where it is taken.
pub open spec fn payload_problem(payload: PayloadModel, slot: UiSlot) -> Option<Seq<char>> {
    if !fits_slot(payload, slot) {
        Some("payload kind does not match slot "@ + manifest::slot_name(slot))
    } else {
        size_problem(payload)
    }
}

fn is_too_long(s: &str) -> (r: bool)
    ensures
        r == too_long(s@),
{
    s.unicode_len() > MAX_TEXT
}

fn has_too_long(items: &Vec<String>) -> (r: bool)
    ensures
        r == any_too_long(text::texts(items@)),
{
    let ghost all = text::texts(items@);
    let mut i: usize = 0;
    while i < items.len()
        invariant
            i <= items.len(),
            all == text::texts(items@),
            forall|j: int| 0 <= j < i ==> !too_long(#[trigger] all[j]),
        decreases items.len() - i,
    {
        if is_too_long(items[i].as_str()) {
            assert(too_long(all[i as int]));
            return true;
        }
        i += 1;
    }
    false
}

fn has_too_long_pair(items: &Vec<(String, String)>) -> (r: bool)
    ensures
        r == exists|i: int|
            0 <= i < items.len() && (too_long((#[trigger] pair_texts(items@)[i]).0) || too_long(
                pair_texts(items@)[i].1,
            )),
{
    let ghost all = pair_texts(items@);
    let mut i: usize = 0;
    while i < items.len()
        invariant
            i <= items.len(),
            all == pair_texts(items@),
            forall|j: int|
                0 <= j < i ==> !(too_long((#[trigger] all[j]).0) || too_long(all[j].1)),
        decreases items.len() - i,
    {
        if is_too_long(items[i].0.as_str()) || is_too_long(items[i].1.as_str()) {
            assert(too_long(all[i as int].0) || too_long(all[i as int].1));
            return true;
        }
        i += 1;
    }
    false
}

impl Block {
    /// Size caps of one block.
    pub fn validate(&self) -> (r: Result<(), String>)
        ensures
            text::refusal(r) == block_problem(self@),
    {
        match self {
            Block::Text { text, .. } => {
                if is_too_long(text.as_str()) {
                    return Err("block text longer than 200 chars".to_owned());
                }
            },
            Block::Kv { items } => {
                if items.len() > MAX_ITEMS || has_too_long_pair(items) {
                    return Err("kv block too large".to_owned());
                }
            },
            Block::List { items } => {
                if items.len() > MAX_ITEMS || has_too_long(items) {
                    return Err("list block too large".to_owned());
                }
            },
            Block::Metric { label, value } => {
                if is_too_long(label.as_str()) || is_too_long(value.as_str()) {
                    return Err("metric block too large".to_owned());
                }
            },
        }
        Ok(())
    }
}

impl UiPayload {
    fn matches_slot(&self, slot: UiSlot) -> (r: bool)
        ensures
            r == fits_slot(self@, slot),
    {
        match (self, slot) {
            (UiPayload::Badge { .. }, UiSlot::StatusBarSegment) => true,
            (UiPayload::Badge { .. }, UiSlot::SessionListRowBadge) => true,
            (UiPayload::Badge { .. }, UiSlot::SessionDetailHeaderBadge) => true,
            (UiPayload::Cell { .. }, UiSlot::SessionListColumn) => true,
            (UiPayload::SortKey { .. }, UiSlot::SessionListSortKey) => true,
            (UiPayload::Facets { .. }, UiSlot::SessionListFilterFacet) => true,
            (UiPayload::Blocks { .. }, UiSlot::DashboardCard) => true,
            (UiPayload::Blocks { .. }, UiSlot::SessionDetailPanel) => true,
            _ => false,
        }
    }

    /// Slot compatibility plus size caps; rejects oversized pushes before
    /// they reach any renderer.
    pub fn validate_for(&self, slot: UiSlot) -> (r: Result<(), String>)
        ensures
            text::refusal(r) == payload_problem(self@, slot),
    {
        if !self.matches_slot(slot) {
            return Err(concat2("payload kind does not match slot ", slot.as_str()));
        }
        match self {
            UiPayload::Badge { text, tooltip, .. } => {
                if is_too_long(text.as_str()) || is_too_long(tooltip.as_str()) {
                    return Err("badge text/tooltip longer than 200 chars".to_owned());
                }
            },
            UiPayload::Cell { text, .. } => {
                if is_too_long(text.as_str()) {
                    return Err("cell text longer than 200 chars".to_owned());
                }
            },
            UiPayload::SortKey { key, reason } => {
                if !key.is_finite() {
                    return Err("sort key must be finite".to_owned());
                }
                if is_too_long(reason.as_str()) {
                    return Err("sort reason longer than 200 chars".to_owned());
                }
            },
            UiPayload::Facets { values } => {
                if values.len() > MAX_FACETS || has_too_long(values) {
                    return Err("at most 8 facets of 200 chars".to_owned());
                }
            },
            UiPayload::Blocks { blocks, .. } => {
                if blocks.len() > MAX_BLOCKS {
                    return Err("at most 32 blocks".to_owned());
                }
                let ghost all = block_models(blocks@);
                assert(all.skip(0) =~= all);
                let mut i: usize = 0;
                while i < blocks.len()
                    invariant
                        i <= blocks.len(),
                        blocks.len() <= MAX_BLOCKS,
                        all == block_models(blocks@),
                        fits_slot(self@, slot),
                        self@ matches PayloadModel::Blocks { blocks: b, .. } && b == all,
                        blocks_problem(all) == blocks_problem(all.skip(i as int)),
                    decreases blocks.len() - i,
                {
                    assert(all.skip(i as int).drop_first() =~= all.skip(i + 1));
                    assert(all.skip(i as int)[0] == blocks@[i as int]@);
                    match blocks[i].validate() {
                        Ok(()) => {},
                        Err(message) => {
                            return Err(message);
                        },
                    }
                    i += 1;
                }
            },
        }
        Ok(())
    }
}

impl Clone for Block {
    fn clone(&self) -> (r: Self)
        ensures
            r@ == self@,
    {
        match self {
            Block::Text { text, severity } => Block::Text {
                text: text.clone(),
                severity: *severity,
            },
            Block::Kv { items } => {
                let mut out: Vec<(String, String)> = Vec::new();
                let mut i: usize = 0;
                while i < items.len()
                    invariant
                        i <= items.len(),
                        pair_texts(out@) == pair_texts(items@).take(i as int),
                    decreases items.len() - i,
                {
                    let ghost before = out@;
                    out.push((items[i].0.clone(), items[i].1.clone()));
                    i += 1;
                    assert(pair_texts(out@) =~= pair_texts(before).push(
                        pair_texts(items@)[i - 1],
                    ));
                    assert(pair_texts(items@).take(i as int) =~= pair_texts(items@).take(
                        i - 1,
                    ).push(pair_texts(items@)[i - 1]));
                }
                assert(pair_texts(items@).take(i as int) =~= pair_texts(items@));
                Block::Kv { items: out }
            },
            Block::List { items } => Block::List { items: copy_texts(items) },
            Block::Metric { label, value } => Block::Metric {
                label: label.clone(),
                value: value.clone(),
            },
        }
    }
}

impl Clone for UiPayload {
    fn clone(&self) -> (r: Self)
        ensures
            r@ == self@,
    {
        match self {
            UiPayload::Badge { text, severity, tooltip } => UiPayload::Badge {
                text: text.clone(),
                severity: *severity,
                tooltip: tooltip.clone(),
            },
            UiPayload::Cell { text, severity, sort_key } => UiPayload::Cell {
                text: text.clone(),
                severity: *severity,
                sort_key: *sort_key,
            },
            UiPayload::SortKey { key, reason } => UiPayload::SortKey {
                key: *key,
                reason: reason.clone(),
            },
            UiPayload::Facets { values } => UiPayload::Facets { values: copy_texts(values) },
            UiPayload::Blocks { severity, blocks } => {
                let mut out: Vec<Block> = Vec::new();
                let mut i: usize = 0;
                while i < blocks.len()
                    invariant
                        i <= blocks.len(),
                        block_models(out@) == block_models(blocks@).take(i as int),
                    decreases blocks.len() - i,
                {
                    let ghost before = out@;
                    let copy = blocks[i].clone();
                    out.push(copy);
                    i += 1;
                    assert(block_models(out@) =~= block_models(before).push(
                        block_models(blocks@)[i - 1],
                    ));
                    assert(block_models(blocks@).take(i as int) =~= block_models(blocks@).take(
                        i - 1,
                    ).push(block_models(blocks@)[i - 1]));
                }
                assert(block_models(blocks@).take(i as int) =~= block_models(blocks@));
                UiPayload::Blocks { severity: *severity, blocks: out }
            },
        }
    }
}

/// What a piece of state applies to.
#[derive(Debug, Clone, PartialEq, Eq, Hash)]
pub enum UiScope {
    Global,
    Session(String),
}

impl View for UiScope {
    type V = Option<Seq<char>>;

    /// The session, or `None` for state that is not of one session.
    open spec fn view(&self) -> Option<Seq<char>> {
        match *self {
            UiScope::Global => None,
            UiScope::Session(id) => Some(id@),
        }
    }
}

#[derive(Debug)]
struct StateRecord {
    plugin_id: String,
    contribution_id: String,
    scope: UiScope,
    payload: UiPayload,
    expires_at: Option<u128>,
}

/// What contracts say of one piece of state.
pub struct StateModel {
    pub plugin_id: Seq<char>,
    pub contribution_id: Seq<char>,
    /// The session, or `None` for state that is not of one session.
    pub session: Option<Seq<char>>,
    pub payload: PayloadModel,
    /// The time in milliseconds at which the state stops counting.
    pub expires_at: Option<u128>,
}

impl View for StateRecord {
    type V = StateModel;

    closed spec fn view(&self) -> StateModel {
        StateModel {
            plugin_id: self.plugin_id@,
            contribution_id: self.contribution_id@,
            session: self.scope@,
            payload: self.payload@,
            expires_at: self.expires_at,
        }
    }
}

/// A plugin-emitted notification, host-rendered on both surfaces.
#[derive(Debug)]
pub struct Notification {
    pub plugin_id: String,
    pub title: String,
    pub body: String,
    pub severity: Severity,
    pub session_id: Option<String>,
    /// Monotonic id; clients keep the highest seen to spot new ones.
    pub seq: u64,
}

/// What contracts say of a notification.
pub struct NotificationModel {
    pub plugin_id: Seq<char>,
    pub title: Seq<char>,
    pub body: Seq<char>,
    pub severity: Severity,
    pub session_id: Option<Seq<char>>,
    pub seq: u64,
}

impl View for Notification {
    type V = NotificationModel;

    open spec fn view(&self) -> NotificationModel {
        NotificationModel {
            plugin_id: self.plugin_id@,
            title: self.title@,
            body: self.body@,
            severity: self.severity,
            session_id: text::optional_text(self.session_id),
            seq: self.seq,
        }
    }
}

impl Clone for Notification {
    fn clone(&self) -> (r: Self)
        ensures
            r@ == self@,
    {
        Notification {
            plugin_id: self.plugin_id.clone(),
            title: self.title.clone(),
            body: self.body.clone(),
            severity: self.severity,
            session_id: copy_optional(&self.session_id),
            seq: self.seq,
        }
    }
}

/// The models of a list of notifications.
pub open spec fn notification_models(notes: Seq<Notification>) -> Seq<NotificationModel> {
    notes.map_values(|n: Notification| n@)
}

pub const MAX_NOTIFICATIONS: usize = 50;

/// The cached state and notifications of all plugins.
#[derive(Debug)]
pub struct UiStore {
    state: Vec<StateRecord>,
    notifications: Vec<Notification>,
    /// Bumped on every mutation; cheap change detection for web polling and
    /// TUI redraw triggers.
    revision: u64,
    last_seq: u64,
}

/// What contracts say of the store.
pub struct StoreModel {
    pub state: Seq<StateModel>,
    /// Oldest first.
    pub notifications: Seq<NotificationModel>,
    pub revision: u64,
    /// The highest sequence number given so far.
    pub last_seq: u64,
}

/// Two pieces of state take the same place.
pub open spec fn same_place(a: StateModel, b: StateModel) -> bool {
    a.plugin_id == b.plugin_id && a.contribution_id == b.contribution_id && a.session == b.session
}

/// No two pieces of state take the same place.
pub open spec fn distinct_places(state: Seq<StateModel>) -> bool {
    forall|i: int, j: int|
        0 <= i < j < state.len() ==> !same_place(#[trigger] state[i], #[trigger] state[j])
}

/// The numbers of the notifications rise, and none is above the last given.
pub open spec fn numbered(notes: Seq<NotificationModel>, last_seq: u64) -> bool {
    &&& forall|i: int, j: int|
        0 <= i < j < notes.len() ==> (#[trigger] notes[i]).seq < (#[trigger] notes[j]).seq
    &&& forall|i: int| 0 <= i < notes.len() ==> (#[trigger] notes[i]).seq <= last_seq
}

/// No payload is over the caps.
pub open spec fn within_caps(state: Seq<StateModel>) -> bool {
    forall|i: int| 0 <= i < state.len() ==> size_problem((#[trigger] state[i]).payload) is None
}

/// A title that is too short or too long, or a body that is too long.
pub open spec fn bad_note(title: Seq<char>, body: Seq<char>) -> bool {
    title.len() == 0 || too_long(title) || too_long(body)
}

/// No notification is over the caps.
pub open spec fn notes_within_caps(notes: Seq<NotificationModel>) -> bool {
    forall|i: int| 0 <= i < notes.len() ==> !bad_note((#[trigger] notes[i]).title, notes[i].body)
}

/// What every store keeps: one piece of state per place, a bounded ring of
/// notifications, rising numbers, and nothing over the caps.
pub open spec fn store_ok(store: StoreModel) -> bool {
    &&& distinct_places(store.state)
    &&& within_caps(store.state)
    &&& store.notifications.len() <= MAX_NOTIFICATIONS
    &&& numbered(store.notifications, store.last_seq)
    &&& notes_within_caps(store.notifications)
}

spec fn record_models(records: Seq<StateRecord>) -> Seq<StateModel> {
    records.map_values(|r: StateRecord| r@)
}

impl View for UiStore {
    type V = StoreModel;

    closed spec fn view(&self) -> StoreModel {
        StoreModel {
            state: record_models(self.state@),
            notifications: notification_models(self.notifications@),
            revision: self.revision,
            last_seq: self.last_seq,
        }
    }
}

impl UiStore {
    #[verifier::type_invariant]
    spec fn well_formed(self) -> bool {
        store_ok(self@)
    }

    /// The empty store.
    pub fn new() -> (r: Self)
        ensures
            store_ok(r@),
            r@.state == Seq::<StateModel>::empty(),
            r@.notifications == Seq::<NotificationModel>::empty(),
            r@.revision == 0,
            r@.last_seq == 0,
    {
        let r = UiStore {
            state: Vec::new(),
            notifications: Vec::new(),
            revision: 0,
            last_seq: 0,
        };
        assert(r@.state =~= Seq::<StateModel>::empty());
        assert(r@.notifications =~= Seq::<NotificationModel>::empty());
        r
    }
}

impl Default for UiStore {
    fn default() -> (r: Self)
        ensures
            r@.state == Seq::<StateModel>::empty(),
            r@.notifications == Seq::<NotificationModel>::empty(),
            r@.revision == 0,
            r@.last_seq == 0,
    {
        UiStore::new()
    }
}

impl UiStore {
    /// The highest notification number given so far.
    pub fn last_seq(&self) -> (r: u64)
        ensures
            r == self@.last_seq,
    {
        self.last_seq
    }
}

/// The counter of mutations.
pub fn revision(store: &UiStore) -> (r: u64)
    ensures
        r == store@.revision,
{
    store.revision
}

/// The counter after one more mutation.
pub open spec fn bumped(revision: u64) -> u64 {
    if revision == u64::MAX {
        0
    } else {
        (revision + 1) as u64
    }
}

fn bump(revision: u64) -> (r: u64)
    ensures
        r == bumped(revision),
{
    if revision == u64::MAX {
        0
    } else {
        revision + 1
    }
}

/// The first contribution with this id.
pub open spec fn find_contribution(ui: Seq<UiContribution>, id: Seq<char>) -> Option<UiContribution>
    decreases ui.len(),
{
    if ui.len() == 0 {
        None
    } else if ui[0].id@ == id {
        Some(ui[0])
    } else {
        find_contribution(ui.drop_first(), id)
    }
}

/// The contribution that a plugin may push for.
pub open spec fn declared_contribution(
    plugins: Seq<LoadedPlugin>,
    plugin_id: Seq<char>,
    contribution_id: Seq<char>,
) -> Option<UiContribution> {
    match registry::find_active(plugins, plugin_id) {
        Some(plugin) => find_contribution(plugin.manifest.ui@, contribution_id),
        None => None,
    }
}

/// Why a plugin is refused that does not take part.
pub open spec fn inactive_problem(plugin_id: Seq<char>) -> Seq<char> {
    "plugin "@ + plugin_id + " is not active"@
}

/// Why a push for a contribution is refused, or `None` where it may be made.
pub open spec fn contribution_problem(
    plugins: Seq<LoadedPlugin>,
    plugin_id: Seq<char>,
    contribution_id: Seq<char>,
) -> Option<Seq<char>> {
    if registry::find_active(plugins, plugin_id) is None {
        Some(inactive_problem(plugin_id))
    } else if declared_contribution(plugins, plugin_id, contribution_id) is None {
        Some(
            "plugin "@ + plugin_id + (" declares no ui contribution "@ + text::debug_text(
                contribution_id,
            )),
        )
    } else {
        None
    }
}

/// Look up the declared contribution; pushing for an undeclared id is
/// refused, which is the ownership check (manifests are user-approved).
fn contribution_of<'a>(
    registry: &'a PluginRegistry,
    plugin_id: &str,
    contribution_id: &str,
) -> (r: Result<&'a UiContribution, String>)
    ensures
        text::refusal(r) == contribution_problem(registry.plugins@, plugin_id@, contribution_id@),
        r matches Ok(c) ==> declared_contribution(registry.plugins@, plugin_id@, contribution_id@)
            == Some(*c),
{
    let plugin = match registry.get_active(plugin_id) {
        Some(plugin) => plugin,
        None => {
            return Err(concat3("plugin ", plugin_id, " is not active"));
        },
    };
    let ui = &plugin.manifest.ui;
    let mut i: usize = 0;
    assert(ui@.skip(0) =~= ui@);
    while i < ui.len()
        invariant
            i <= ui.len(),
            ui == &plugin.manifest.ui,
            registry::find_active(registry.plugins@, plugin_id@) == Some(*plugin),
            find_contribution(ui@, contribution_id@) == find_contribution(
                ui@.skip(i as int),
                contribution_id@,
            ),
        decreases ui.len() - i,
    {
        if same_text(ui[i].id.as_str(), contribution_id) {
            return Ok(&ui[i]);
        }
        assert(ui@.skip(i as int).drop_first() =~= ui@.skip(i + 1));
        i += 1;
    }
    let tail = concat2(" declares no ui contribution ", debug_of(contribution_id).as_str());
    Err(concat3("plugin ", plugin_id, tail.as_str()))
}

/// The first place in `state` that `row` takes, or the length.
pub open spec fn place_of(state: Seq<StateModel>, row: StateModel) -> nat
    decreases state.len(),
{
    if state.len() == 0 || same_place(state[0], row) {
        0
    } else {
        1 + place_of(state.drop_first(), row)
    }
}

/// `state` with `row` in place of what took its place, or at the end.
pub open spec fn upserted(state: Seq<StateModel>, row: StateModel) -> Seq<StateModel> {
    let at = place_of(state, row);
    if at < state.len() {
        state.update(at as int, row)
    } else {
        state.push(row)
    }
}

proof fn place_of_bounds(state: Seq<StateModel>, row: StateModel)
    ensures
        place_of(state, row) <= state.len(),
        forall|j: int| 0 <= j < place_of(state, row) ==> !same_place(#[trigger] state[j], row),
        place_of(state, row) < state.len() ==> same_place(state[place_of(state, row) as int], row),
    decreases state.len(),
{
    if state.len() > 0 && !same_place(state[0], row) {
        let tail = state.drop_first();
        place_of_bounds(tail, row);
        assert forall|j: int| 0 <= j < place_of(state, row) implies !same_place(
            #[trigger] state[j],
            row,
        ) by {
            if j > 0 {
                assert(state[j] == tail[j - 1]);
            }
        }
    }
}

proof fn upserted_distinct(state: Seq<StateModel>, row: StateModel)
    requires
        distinct_places(state),
    ensures
        distinct_places(upserted(state, row)),
{
    place_of_bounds(state, row);
    let at = place_of(state, row);
    let out = upserted(state, row);
    assert forall|i: int, j: int| 0 <= i < j < out.len() implies !same_place(
        #[trigger] out[i],
        #[trigger] out[j],
    ) by {
        if at < state.len() {
            assert(!same_place(state[i], state[j]));
        } else if j < state.len() {
            assert(!same_place(state[i], state[j]));
        } else {
            assert(!same_place(state[i], row));
        }
    }
}

fn same_scope(a: &UiScope, b: &UiScope) -> (r: bool)
    ensures
        r == (a@ == b@),
{
    match (a, b) {
        (UiScope::Global, UiScope::Global) => true,
        (UiScope::Session(x), UiScope::Session(y)) => same_text(x.as_str(), y.as_str()),
        _ => false,
    }
}

fn takes_same_place(a: &StateRecord, b: &StateRecord) -> (r: bool)
    ensures
        r == same_place(a@, b@),
{
    same_text(a.plugin_id.as_str(), b.plugin_id.as_str()) && same_text(
        a.contribution_id.as_str(),
        b.contribution_id.as_str(),
    ) && same_scope(&a.scope, &b.scope)
}

fn upsert(state: Vec<StateRecord>, row: StateRecord) -> (r: Vec<StateRecord>)
    ensures
        record_models(r@) == upserted(record_models(state@), row@),
{
    let mut state = state;
    let ghost all = record_models(state@);
    let mut i: usize = 0;
    assert(all.skip(0) =~= all);
    while i < state.len() && !takes_same_place(&state[i], &row)
        invariant
            i <= state.len(),
            all == record_models(state@),
            place_of(all, row@) == i + place_of(all.skip(i as int), row@),
        decreases state.len() - i,
    {
        assert(all.skip(i as int).drop_first() =~= all.skip(i + 1));
        i += 1;
    }
    let ghost model = row@;
    if i < state.len() {
        state.set(i, row);
        assert(record_models(state@) =~= all.update(i as int, model));
    } else {
        state.push(row);
        assert(record_models(state@) =~= all.push(model));
    }
    state
}

/// Why a scope is refused for a slot.
pub open spec fn scope_problem(slot: UiSlot, session_id: Option<Seq<char>>) -> Option<Seq<char>> {
    if manifest::slot_session_scoped(slot) && session_id is None {
        Some("slot "@ + manifest::slot_name(slot) + " needs a session_id"@)
    } else if !manifest::slot_session_scoped(slot) && session_id is Some {
        Some("slot "@ + manifest::slot_name(slot) + " is global; drop session_id"@)
    } else {
        None
    }
}

/// Why a push is refused, or `None` where it is stored.
pub open spec fn push_problem(
    plugins: Seq<LoadedPlugin>,
    plugin_id: Seq<char>,
    contribution_id: Seq<char>,
    session_id: Option<Seq<char>>,
    payload: PayloadModel,
) -> Option<Seq<char>> {
    match contribution_problem(plugins, plugin_id, contribution_id) {
        Some(problem) => Some(problem),
        None => {
            let slot = declared_contribution(plugins, plugin_id, contribution_id)->0.slot;
            match payload_problem(payload, slot) {
                Some(problem) => Some(problem),
                None => scope_problem(slot, session_id),
            }
        },
    }
}

/// The store after a piece of state was put.
pub open spec fn with_state(store: StoreModel, row: StateModel) -> StoreModel {
    StoreModel {
        state: upserted(store.state, row),
        revision: bumped(store.revision),
        ..store
    }
}

/// The piece of state that a push stores at a time.
pub open spec fn pushed_row(
    plugin_id: Seq<char>,
    contribution_id: Seq<char>,
    session_id: Option<Seq<char>>,
    ttl_ms: Option<u64>,
    payload: PayloadModel,
    now_ms: u64,
) -> StateModel {
    StateModel {
        plugin_id,
        contribution_id,
        session: session_id,
        payload,
        expires_at: match ttl_ms {
            Some(ms) => Some((now_ms + ms) as u128),
            None => None,
        },
    }
}

/// Validate and store one push from a plugin worker.
pub fn set_state(
    store: &mut UiStore,
    registry: &PluginRegistry,
    plugin_id: &str,
    contribution_id: &str,
    session_id: Option<String>,
    ttl_ms: Option<u64>,
    payload: UiPayload,
    now_ms: u64,
) -> (r: Result<(), String>)
    ensures
        text::refusal(r) == push_problem(
            registry.plugins@,
            plugin_id@,
            contribution_id@,
            text::optional_text(session_id),
            payload@,
        ),
        r is Err ==> final(store)@ == old(store)@,
        r is Ok ==> final(store)@ == with_state(
            old(store)@,
            pushed_row(
                plugin_id@,
                contribution_id@,
                text::optional_text(session_id),
                ttl_ms,
                payload@,
                now_ms,
            ),
        ),
        store_ok(final(store)@),
{
    proof {
        use_type_invariant(&*store);
    }
    let contribution = contribution_of(registry, plugin_id, contribution_id)?;
    let slot = contribution.slot;
    payload.validate_for(slot)?;
    let scope = match (slot.session_scoped(), session_id) {
        (true, Some(id)) => UiScope::Session(id),
        (true, None) => {
            return Err(concat3("slot ", slot.as_str(), " needs a session_id"));
        },
        (false, None) => UiScope::Global,
        (false, Some(_)) => {
            return Err(concat3("slot ", slot.as_str(), " is global; drop session_id"));
        },
    };
    let row = StateRecord {
        plugin_id: plugin_id.to_owned(),
        contribution_id: contribution_id.to_owned(),
        scope,
        payload,
        expires_at: match ttl_ms {
            Some(ms) => Some(now_ms as u128 + ms as u128),
            None => None,
        },
    };
    let ghost model = row@;
    let mut taken = UiStore::new();
    std::mem::swap(store, &mut taken);
    let UiStore { state, notifications, revision, last_seq } = taken;
    proof {
        upserted_distinct(record_models(state@), model);
    }
    let state = upsert(state, row);
    *store = UiStore { state, notifications, revision: bump(revision), last_seq };
    Ok(())
}

/// Whether a removal for a contribution takes a piece of state out. Without
/// a session it takes every session.
pub open spec fn removal_takes(
    row: StateModel,
    plugin_id: Seq<char>,
    contribution_id: Seq<char>,
    session_id: Option<Seq<char>>,
) -> bool {
    row.plugin_id == plugin_id && row.contribution_id == contribution_id && (session_id is None
        || row.session == session_id)
}

/// The rows that a removal leaves.
pub open spec fn after_removal(
    state: Seq<StateModel>,
    plugin_id: Seq<char>,
    contribution_id: Seq<char>,
    session_id: Option<Seq<char>>,
) -> Seq<StateModel> {
    state.filter(|row: StateModel| !removal_takes(row, plugin_id, contribution_id, session_id))
}

proof fn filter_keeps_store_ok(
    state: Seq<StateModel>,
    notes: Seq<NotificationModel>,
    last_seq: u64,
    keep_row: spec_fn(StateModel) -> bool,
    keep_note: spec_fn(NotificationModel) -> bool,
)
    requires
        distinct_places(state),
        within_caps(state),
        numbered(notes, last_seq),
        notes_within_caps(notes),
    ensures
        distinct_places(state.filter(keep_row)),
        within_caps(state.filter(keep_row)),
        numbered(notes.filter(keep_note), last_seq),
        notes_within_caps(notes.filter(keep_note)),
        notes.filter(keep_note).len() <= notes.len(),
{
    lists::filter_keeps_pairs(state, keep_row, |a: StateModel, b: StateModel| !same_place(a, b));
    lists::filter_keeps_pairs(
        notes,
        keep_note,
        |a: NotificationModel, b: NotificationModel| a.seq < b.seq,
    );
    let kept = state.filter(keep_row);
    let ok = |a: StateModel, b: StateModel| !same_place(a, b);
    assert forall|i: int, j: int| 0 <= i < j < kept.len() implies !same_place(
        #[trigger] kept[i],
        #[trigger] kept[j],
    ) by {
        assert(ok(kept[i], kept[j]));
    }
    lists::filter_members(state, keep_row);
    assert forall|i: int| 0 <= i < kept.len() implies size_problem(
        (#[trigger] kept[i]).payload,
    ) is None by {
        assert(state.contains(kept[i]));
    }
    lists::filter_members(notes, keep_note);
    notes.lemma_filter_len(keep_note);
    let kept_notes = notes.filter(keep_note);
    assert forall|i: int| 0 <= i < kept_notes.len() implies (#[trigger] kept_notes[i]).seq
        <= last_seq && !bad_note(kept_notes[i].title, kept_notes[i].body) by {
        assert(notes.contains(kept_notes[i]));
    }
}

/// Remove one piece of state (all sessions when `session_id` is None on a
/// session-scoped contribution).
pub fn remove_state(
    store: &mut UiStore,
    registry: &PluginRegistry,
    plugin_id: &str,
    contribution_id: &str,
    session_id: Option<String>,
) -> (r: Result<(), String>)
    ensures
        text::refusal(r) == contribution_problem(registry.plugins@, plugin_id@, contribution_id@),
        r is Err ==> final(store)@ == old(store)@,
        r is Ok ==> final(store)@ == (StoreModel {
            state: after_removal(
                old(store)@.state,
                plugin_id@,
                contribution_id@,
                text::optional_text(session_id),
            ),
            revision: bumped(old(store)@.revision),
            ..old(store)@
        }),
        store_ok(final(store)@),
{
    proof {
        use_type_invariant(&*store);
    }
    contribution_of(registry, plugin_id, contribution_id)?;
    let mut taken = UiStore::new();
    std::mem::swap(store, &mut taken);
    let UiStore { state, notifications, revision, last_seq } = taken;
    let ghost rows = state@;
    let ghost all = record_models(rows);
    let ghost keep = |row: StateModel|
        !removal_takes(row, plugin_id@, contribution_id@, text::optional_text(session_id));
    let mut kept: Vec<StateRecord> = Vec::new();
    proof {
        reveal(Seq::filter);
        assert(record_models(kept@) =~= all.take(0).filter(keep));
    }
    for row in it: state
        invariant
            it.seq() == rows,
            all == record_models(rows),
            keep == (|row: StateModel|
                !removal_takes(row, plugin_id@, contribution_id@, text::optional_text(session_id))),
            record_models(kept@) == all.take(it.index()).filter(keep),
    {
        proof {
            lists::filter_grows(all, it.index(), keep);
        }
        let session_matches = match &session_id {
            Some(id) => match &row.scope {
                UiScope::Global => false,
                UiScope::Session(of) => same_text(of.as_str(), id.as_str()),
            },
            None => true,
        };
        let takes = same_text(row.plugin_id.as_str(), plugin_id) && same_text(
            row.contribution_id.as_str(),
            contribution_id,
        ) && session_matches;
        assert(takes == !keep(all[it.index()]));
        if !takes {
            let ghost before = record_models(kept@);
            let ghost model = row@;
            kept.push(row);
            assert(record_models(kept@) =~= before.push(model));
        }
    }
    proof {
        assert(all.take(all.len() as int) =~= all);
        filter_keeps_store_ok(
            all,
            notification_models(notifications@),
            last_seq,
            keep,
            |n: NotificationModel| true,
        );
    }
    *store = UiStore { state: kept, notifications, revision: bump(revision), last_seq };
    Ok(())
}

/// Why a notification is refused, or `None` where it is taken.
pub open spec fn notification_problem(
    plugins: Seq<LoadedPlugin>,
    plugin_id: Seq<char>,
    title: Seq<char>,
    body: Seq<char>,
) -> Option<Seq<char>> {
    if registry::find_active(plugins, plugin_id) is None {
        Some(inactive_problem(plugin_id))
    } else if bad_note(title, body) {
        Some("notification title must be 1..=200 chars, body <= 200"@)
    } else {
        None
    }
}

/// The ring with one more notification: the oldest leaves a full ring.
pub open spec fn ring_with(
    notes: Seq<NotificationModel>,
    note: NotificationModel,
) -> Seq<NotificationModel> {
    if notes.len() < MAX_NOTIFICATIONS {
        notes.push(note)
    } else {
        notes.push(note).drop_first()
    }
}

/// The store after a notification was taken.
pub open spec fn noted(store: StoreModel, note: NotificationModel) -> StoreModel {
    StoreModel {
        notifications: ring_with(store.notifications, note),
        revision: bumped(store.revision),
        last_seq: note.seq,
        ..store
    }
}

/// Append a notification (capped ring). Notifications render host-side:
/// the TUI status bar and the web top bar show the newest, both surfaces
/// list the ring.
pub fn notify(
    store: &mut UiStore,
    registry: &PluginRegistry,
    plugin_id: &str,
    title: String,
    body: String,
    severity: Severity,
    session_id: Option<String>,
) -> (r: Result<(), String>)
    requires
        old(store)@.last_seq < u64::MAX,
    ensures
        text::refusal(r) == notification_problem(registry.plugins@, plugin_id@, title@, body@),
        r is Err ==> final(store)@ == old(store)@,
        r is Ok ==> final(store)@ == noted(
            old(store)@,
            NotificationModel {
                plugin_id: plugin_id@,
                title: title@,
                body: body@,
                severity,
                session_id: text::optional_text(session_id),
                seq: (old(store)@.last_seq + 1) as u64,
            },
        ),
        store_ok(final(store)@),
{
    proof {
        use_type_invariant(&*store);
    }
    if registry.get_active(plugin_id).is_none() {
        return Err(concat3("plugin ", plugin_id, " is not active"));
    }
    if title.as_str().unicode_len() == 0 || is_too_long(title.as_str()) || is_too_long(
        body.as_str(),
    ) {
        return Err("notification title must be 1..=200 chars, body <= 200".to_owned());
    }
    let mut taken = UiStore::new();
    std::mem::swap(store, &mut taken);
    let UiStore { state, notifications, revision, last_seq } = taken;
    let mut notifications = notifications;
    let ghost before = notification_models(notifications@);
    let seq = last_seq + 1;
    let note = Notification {
        plugin_id: plugin_id.to_owned(),
        title,
        body,
        severity,
        session_id,
        seq,
    };
    let ghost model = note@;
    notifications.push(note);
    assert(notification_models(notifications@) =~= before.push(model));
    if notifications.len() > MAX_NOTIFICATIONS {
        notifications.remove(0);
        assert(notification_models(notifications@) =~= before.push(model).drop_first());
    }
    *store = UiStore { state, notifications, revision: bump(revision), last_seq: seq };
    Ok(())
}

/// The rows of the plugins named.
pub open spec fn rows_of(state: Seq<StateModel>, ids: Seq<Seq<char>>) -> Seq<StateModel> {
    state.filter(|row: StateModel| ids.contains(row.plugin_id))
}

/// The notifications of the plugins named.
pub open spec fn notes_of(
    notes: Seq<NotificationModel>,
    ids: Seq<Seq<char>>,
) -> Seq<NotificationModel> {
    notes.filter(|n: NotificationModel| ids.contains(n.plugin_id))
}

/// Drop state and notifications of every plugin NOT in `active_ids`; called
/// when the registry is reloaded so a disabled or uninstalled plugin's UI
/// vanishes.
pub fn evict_except(store: &mut UiStore, active_ids: &Vec<String>)
    ensures
        final(store)@ == (StoreModel {
            state: rows_of(old(store)@.state, text::texts(active_ids@)),
            notifications: notes_of(old(store)@.notifications, text::texts(active_ids@)),
            revision: bumped(old(store)@.revision),
            ..old(store)@
        }),
        store_ok(final(store)@),
{
    proof {
        use_type_invariant(&*store);
    }
    let mut taken = UiStore::new();
    std::mem::swap(store, &mut taken);
    let UiStore { state, notifications, revision, last_seq } = taken;
    let ghost ids = text::texts(active_ids@);
    let ghost rows = state@;
    let ghost all = record_models(rows);
    let ghost keep = |row: StateModel| ids.contains(row.plugin_id);
    let mut kept: Vec<StateRecord> = Vec::new();
    proof {
        reveal(Seq::filter);
        assert(record_models(kept@) =~= all.take(0).filter(keep));
    }
    for row in it: state
        invariant
            it.seq() == rows,
            ids == text::texts(active_ids@),
            all == record_models(rows),
            keep == (|row: StateModel| ids.contains(row.plugin_id)),
            record_models(kept@) == all.take(it.index()).filter(keep),
    {
        proof {
            lists::filter_grows(all, it.index(), keep);
        }
        let keeps = contains_text(active_ids, row.plugin_id.as_str());
        assert(keeps == keep(all[it.index()]));
        if keeps {
            let ghost before = record_models(kept@);
            let ghost model = row@;
            kept.push(row);
            assert(record_models(kept@) =~= before.push(model));
        }
    }
    let ghost notes = notifications@;
    let ghost all_notes = notification_models(notes);
    let ghost keep_note = |n: NotificationModel| ids.contains(n.plugin_id);
    let mut kept_notes: Vec<Notification> = Vec::new();
    proof {
        reveal(Seq::filter);
        assert(notification_models(kept_notes@) =~= all_notes.take(0).filter(keep_note));
    }
    for note in it: notifications
        invariant
            it.seq() == notes,
            ids == text::texts(active_ids@),
            all_notes == notification_models(notes),
            keep_note == (|n: NotificationModel| ids.contains(n.plugin_id)),
            notification_models(kept_notes@) == all_notes.take(it.index()).filter(keep_note),
    {
        proof {
            lists::filter_grows(all_notes, it.index(), keep_note);
        }
        let keeps = contains_text(active_ids, note.plugin_id.as_str());
        assert(keeps == keep_note(all_notes[it.index()]));
        if keeps {
            let ghost before = notification_models(kept_notes@);
            let ghost model = note@;
            kept_notes.push(note);
            assert(notification_models(kept_notes@) =~= before.push(model));
        }
    }
    proof {
        assert(all.take(all.len() as int) =~= all);
        assert(all_notes.take(all_notes.len() as int) =~= all_notes);
        filter_keeps_store_ok(all, all_notes, last_seq, keep, keep_note);
    }
    *store = UiStore {
        state: kept,
        notifications: kept_notes,
        revision: bump(revision),
        last_seq,
    };
}

/// One rendered-ready entry returned by the snapshot queries.
#[derive(Debug, Clone)]
pub struct UiEntry {
    pub plugin_id: String,
    pub contribution_id: String,
    pub slot: UiSlot,
    /// Manifest title (column header, panel title, sort mode name).
    pub title: String,
    pub priority: i32,
    pub session_id: Option<String>,
    pub payload: UiPayload,
}

/// What contracts say of an entry.
pub struct EntryModel {
    pub plugin_id: Seq<char>,
    pub contribution_id: Seq<char>,
    pub slot: UiSlot,
    pub title: Seq<char>,
    pub priority: i32,
    pub session_id: Option<Seq<char>>,
    pub payload: PayloadModel,
}

impl View for UiEntry {
    type V = EntryModel;

    open spec fn view(&self) -> EntryModel {
        EntryModel {
            plugin_id: self.plugin_id@,
            contribution_id: self.contribution_id@,
            slot: self.slot,
            title: self.title@,
            priority: self.priority,
            session_id: text::optional_text(self.session_id),
            payload: self.payload@,
        }
    }
}

impl Ranked for UiEntry {
    type Model = EntryModel;

    open spec fn model(&self) -> EntryModel {
        self@
    }

    /// Priority descending, then plugin id, then contribution id.
    open spec fn key_of(model: EntryModel) -> SortKey {
        SortKey {
            first: -(model.priority as int),
            second: 0,
            name: model.plugin_id,
            detail: model.contribution_id,
        }
    }

    fn before(&self, other: &Self) -> (r: bool) {
        if self.priority != other.priority {
            return self.priority > other.priority;
        }
        if !same_text(self.plugin_id.as_str(), other.plugin_id.as_str()) {
            return text_less(self.plugin_id.as_str(), other.plugin_id.as_str());
        }
        proof {
            text::text_lt_irreflexive(self.plugin_id@);
        }
        text_less(self.contribution_id.as_str(), other.contribution_id.as_str())
    }
}

/// The models of a list of entries.
pub open spec fn entry_models(entries: Seq<UiEntry>) -> Seq<EntryModel> {
    sorting::models(entries)
}

/// The first contribution with this id and slot.
pub open spec fn find_in_slot(
    ui: Seq<UiContribution>,
    id: Seq<char>,
    slot: UiSlot,
) -> Option<UiContribution>
    decreases ui.len(),
{
    if ui.len() == 0 {
        None
    } else if ui[0].id@ == id && ui[0].slot == slot {
        Some(ui[0])
    } else {
        find_in_slot(ui.drop_first(), id, slot)
    }
}

/// Whether a piece of state still counts.
pub open spec fn is_live(row: StateModel, now_ms: u64) -> bool {
    match row.expires_at {
        Some(at) => at > now_ms,
        None => true,
    }
}

/// The entry that a piece of state gives for a slot: it has to count still,
/// its plugin has to take part and declare the contribution for the slot, and
/// it must not be of another session than the one wanted.
pub open spec fn entry_of(
    row: StateModel,
    plugins: Seq<LoadedPlugin>,
    slot: UiSlot,
    wanted: Option<Seq<char>>,
    now_ms: u64,
) -> Option<EntryModel> {
    if !is_live(row, now_ms) {
        None
    } else {
        match registry::find_active(plugins, row.plugin_id) {
            None => None,
            Some(plugin) => match find_in_slot(plugin.manifest.ui@, row.contribution_id, slot) {
                None => None,
                Some(contribution) => if wanted is Some && row.session is Some && row.session
                    != wanted {
                    None
                } else {
                    Some(
                        EntryModel {
                            plugin_id: row.plugin_id,
                            contribution_id: row.contribution_id,
                            slot,
                            title: contribution.title@,
                            priority: contribution.priority,
                            session_id: row.session,
                            payload: row.payload,
                        },
                    )
                },
            },
        }
    }
}

/// The entries that the state gives for a slot, in the order of the state.
pub open spec fn live_entries(
    state: Seq<StateModel>,
    plugins: Seq<LoadedPlugin>,
    slot: UiSlot,
    wanted: Option<Seq<char>>,
    now_ms: u64,
) -> Seq<EntryModel>
    decreases state.len(),
{
    if state.len() == 0 {
        seq![]
    } else {
        let head = live_entries(state.drop_last(), plugins, slot, wanted, now_ms);
        match entry_of(state.last(), plugins, slot, wanted, now_ms) {
            Some(entry) => head.push(entry),
            None => head,
        }
    }
}

/// The entries that the state gives for a slot, best first.
pub open spec fn slot_entries(
    state: Seq<StateModel>,
    plugins: Seq<LoadedPlugin>,
    slot: UiSlot,
    wanted: Option<Seq<char>>,
    now_ms: u64,
) -> Seq<EntryModel> {
    sorting::stable_sorted::<UiEntry>(live_entries(state, plugins, slot, wanted, now_ms))
}

fn lookup_in_slot<'a>(ui: &'a Vec<UiContribution>, id: &str, slot: UiSlot) -> (r: Option<
    &'a UiContribution,
>)
    ensures
        match r {
            Some(c) => find_in_slot(ui@, id@, slot) == Some(*c),
            None => find_in_slot(ui@, id@, slot) is None,
        },
{
    let mut i: usize = 0;
    assert(ui@.skip(0) =~= ui@);
    while i < ui.len()
        invariant
            i <= ui.len(),
            find_in_slot(ui@, id@, slot) == find_in_slot(ui@.skip(i as int), id@, slot),
        decreases ui.len() - i,
    {
        if same_text(ui[i].id.as_str(), id) && ui[i].slot == slot {
            return Some(&ui[i]);
        }
        assert(ui@.skip(i as int).drop_first() =~= ui@.skip(i + 1));
        i += 1;
    }
    None
}

fn entry_for(
    row: &StateRecord,
    registry: &PluginRegistry,
    slot: UiSlot,
    wanted: Option<&str>,
    now_ms: u64,
) -> (r: Option<UiEntry>)
    ensures
        entry_of(row@, registry.plugins@, slot, text::optional_str(wanted), now_ms) == (match r {
            Some(entry) => Some(entry@),
            None => None,
        }),
{
    if let Some(at) = row.expires_at {
        if at <= now_ms as u128 {
            return None;
        }
    }
    let plugin = registry.get_active(row.plugin_id.as_str())?;
    let contribution = lookup_in_slot(&plugin.manifest.ui, row.contribution_id.as_str(), slot)?;
    let session_id = match &row.scope {
        UiScope::Global => None,
        UiScope::Session(id) => {
            if let Some(wanted) = wanted {
                if !same_text(wanted, id.as_str()) {
                    return None;
                }
            }
            Some(id.clone())
        },
    };
    Some(
        UiEntry {
            plugin_id: row.plugin_id.clone(),
            contribution_id: row.contribution_id.clone(),
            slot,
            title: contribution.title.clone(),
            priority: contribution.priority,
            session_id,
            payload: row.payload.clone(),
        },
    )
}

/// All live entries for one slot, expired state skipped, ordered by
/// priority desc then plugin id; session-scoped slots can narrow to one
/// session.
pub fn entries(
    store: &UiStore,
    registry: &PluginRegistry,
    slot: UiSlot,
    session_id: Option<&str>,
    now_ms: u64,
) -> (r: Vec<UiEntry>)
    ensures
        entry_models(r@) == slot_entries(
            store@.state,
            registry.plugins@,
            slot,
            text::optional_str(session_id),
            now_ms,
        ),
{
    let ghost all = record_models(store.state@);
    let ghost wanted = text::optional_str(session_id);
    let mut out: Vec<UiEntry> = Vec::new();
    assert(sorting::models(out@) =~= live_entries(
        all.take(0),
        registry.plugins@,
        slot,
        wanted,
        now_ms,
    ));
    let mut i: usize = 0;
    while i < store.state.len()
        invariant
            i <= store.state.len(),
            all == record_models(store.state@),
            wanted == text::optional_str(session_id),
            sorting::models(out@) == live_entries(
                all.take(i as int),
                registry.plugins@,
                slot,
                wanted,
                now_ms,
            ),
        decreases store.state.len() - i,
    {
        assert(all.take(i + 1).drop_last() =~= all.take(i as int));
        assert(all.take(i + 1).last() == store.state@[i as int]@);
        if let Some(entry) = entry_for(&store.state[i], registry, slot, session_id, now_ms) {
            let ghost before = sorting::models(out@);
            let ghost model = entry@;
            out.push(entry);
            assert(sorting::models(out@) =~= before.push(model));
        }
        i += 1;
    }
    assert(all.take(i as int) =~= all);
    stable_sort(out)
}

/// The slots in the order in which the snapshot lists them.
pub open spec fn slot_order() -> Seq<UiSlot> {
    seq![
        UiSlot::StatusBarSegment,
        UiSlot::DashboardCard,
        UiSlot::SessionListRowBadge,
        UiSlot::SessionListColumn,
        UiSlot::SessionListSortKey,
        UiSlot::SessionListFilterFacet,
        UiSlot::SessionDetailHeaderBadge,
        UiSlot::SessionDetailPanel,
    ]
}

/// The entries of the slots, one slot after another.
pub open spec fn entries_of_slots(
    state: Seq<StateModel>,
    plugins: Seq<LoadedPlugin>,
    slots: Seq<UiSlot>,
    now_ms: u64,
) -> Seq<EntryModel>
    decreases slots.len(),
{
    if slots.len() == 0 {
        seq![]
    } else {
        entries_of_slots(state, plugins, slots.drop_last(), now_ms) + slot_entries(
            state,
            plugins,
            slots.last(),
            None,
            now_ms,
        )
    }
}

/// Every live entry across all slots (the web snapshot endpoint).
pub fn all_entries(store: &UiStore, registry: &PluginRegistry, now_ms: u64) -> (r: Vec<UiEntry>)
    ensures
        entry_models(r@) == entries_of_slots(
            store@.state,
            registry.plugins@,
            slot_order(),
            now_ms,
        ),
{
    let slots = vec![
        UiSlot::StatusBarSegment,
        UiSlot::DashboardCard,
        UiSlot::SessionListRowBadge,
        UiSlot::SessionListColumn,
        UiSlot::SessionListSortKey,
        UiSlot::SessionListFilterFacet,
        UiSlot::SessionDetailHeaderBadge,
        UiSlot::SessionDetailPanel,
    ];
    assert(slots@ =~= slot_order());
    let mut out: Vec<UiEntry> = Vec::new();
    let mut i: usize = 0;
    assert(entry_models(out@) =~= seq![]);
    while i < slots.len()
        invariant
            i <= slots.len(),
            entry_models(out@) == entries_of_slots(
                store@.state,
                registry.plugins@,
                slots@.take(i as int),
                now_ms,
            ),
        decreases slots.len() - i,
    {
        let mut more = entries(store, registry, slots[i], None, now_ms);
        assert(slots@.take(i + 1).drop_last() =~= slots@.take(i as int));
        let ghost before = out@;
        let ghost added = more@;
        out.append(&mut more);
        assert(entry_models(out@) =~= entry_models(before) + entry_models(added));
        i += 1;
    }
    assert(slots@.take(i as int) =~= slots@);
    out
}

/// Newest-first notification ring.
pub fn notifications(store: &UiStore) -> (r: Vec<Notification>)
    ensures
        notification_models(r@) == store@.notifications.reverse(),
{
    let mut out: Vec<Notification> = Vec::new();
    let mut i: usize = store.notifications.len();
    while i > 0
        invariant
            i <= store.notifications.len(),
            out.len() == store.notifications.len() - i,
            forall|j: int|
                0 <= j < out.len() ==> (#[trigger] out[j])@
                    == store.notifications@[store.notifications.len() - 1 - j]@,
        decreases i,
    {
        i -= 1;
        out.push(store.notifications[i].clone());
    }
    assert(notification_models(out@) =~= store@.notifications.reverse());
    out
}

/// What contracts say of a contribution with the plugin that declares it.
pub struct DeclaredModel {
    pub plugin_id: Seq<char>,
    pub contribution: ContributionModel,
}

impl Ranked for (String, UiContribution) {
    type Model = DeclaredModel;

    open spec fn model(&self) -> DeclaredModel {
        DeclaredModel { plugin_id: self.0@, contribution: self.1@ }
    }

    /// Priority descending, then plugin id, then contribution id.
    open spec fn key_of(model: DeclaredModel) -> SortKey {
        SortKey {
            first: -(model.contribution.priority as int),
            second: 0,
            name: model.plugin_id,
            detail: model.contribution.id,
        }
    }

    fn before(&self, other: &Self) -> (r: bool) {
        if self.1.priority != other.1.priority {
            return self.1.priority > other.1.priority;
        }
        if !same_text(self.0.as_str(), other.0.as_str()) {
            return text_less(self.0.as_str(), other.0.as_str());
        }
        proof {
            text::text_lt_irreflexive(self.0@);
        }
        text_less(self.1.id.as_str(), other.1.id.as_str())
    }
}

/// The contributions of one plugin for a slot, in manifest order.
pub open spec fn declared_by(
    plugin_id: Seq<char>,
    ui: Seq<UiContribution>,
    slot: UiSlot,
) -> Seq<DeclaredModel>
    decreases ui.len(),
{
    if ui.len() == 0 {
        seq![]
    } else {
        let head = declared_by(plugin_id, ui.drop_last(), slot);
        if ui.last().slot == slot {
            head.push(DeclaredModel { plugin_id, contribution: ui.last()@ })
        } else {
            head
        }
    }
}

/// The contributions of the plugins that take part for a slot, in registry
/// order.
pub open spec fn declared_in(plugins: Seq<LoadedPlugin>, slot: UiSlot) -> Seq<DeclaredModel>
    decreases plugins.len(),
{
    if plugins.len() == 0 {
        seq![]
    } else {
        let head = declared_in(plugins.drop_last(), slot);
        let plugin = plugins.last();
        if registry::is_active(plugin) {
            head + declared_by(plugin.manifest.id@, plugin.manifest.ui@, slot)
        } else {
            head
        }
    }
}

/// Declared contributions for one slot across active plugins (priority desc
/// then plugin id), regardless of whether state was pushed yet. Renderers
/// use this for stable structure (column headers, sort modes); state fills
/// in per [`entries`].
pub fn declared(registry: &PluginRegistry, slot: UiSlot) -> (r: Vec<(String, UiContribution)>)
    ensures
        sorting::models(r@) == sorting::stable_sorted::<(String, UiContribution)>(
            declared_in(registry.plugins@, slot),
        ),
{
    let plugins = &registry.plugins;
    let mut out: Vec<(String, UiContribution)> = Vec::new();
    let mut i: usize = 0;
    assert(sorting::models(out@) =~= declared_in(plugins@.take(0), slot));
    while i < plugins.len()
        invariant
            i <= plugins.len(),
            sorting::models(out@) == declared_in(plugins@.take(i as int), slot),
        decreases plugins.len() - i,
    {
        let plugin = &plugins[i];
        assert(plugins@.take(i + 1).drop_last() =~= plugins@.take(i as int));
        if plugin.active() {
            let ui = &plugin.manifest.ui;
            let ghost head = sorting::models(out@);
            let mut j: usize = 0;
            assert(sorting::models(out@) =~= head + declared_by(
                plugin.manifest.id@,
                ui@.take(0),
                slot,
            ));
            while j < ui.len()
                invariant
                    j <= ui.len(),
                    ui == &plugin.manifest.ui,
                    sorting::models(out@) == head + declared_by(
                        plugin.manifest.id@,
                        ui@.take(j as int),
                        slot,
                    ),
                decreases ui.len() - j,
            {
                assert(ui@.take(j + 1).drop_last() =~= ui@.take(j as int));
                if ui[j].slot == slot {
                    let ghost before = sorting::models(out@);
                    out.push((plugin.id().to_owned(), ui[j].clone()));
                    assert(sorting::models(out@) =~= before.push(
                        DeclaredModel {
                            plugin_id: plugin.manifest.id@,
                            contribution: ui@[j as int]@,
                        },
                    ));
                }
                j += 1;
                assert(sorting::models(out@) =~= head + declared_by(
                    plugin.manifest.id@,
                    ui@.take(j as int),
                    slot,
                ));
            }
            assert(ui@.take(j as int) =~= ui@);
        }
        i += 1;
    }
    assert(plugins@.take(i as int) =~= plugins@);
    stable_sort(out)
}

/// The entries of one session.
pub open spec fn entries_of_session(entries: Seq<EntryModel>, session: Seq<char>) -> Seq<EntryModel> {
    entries.filter(|e: EntryModel| e.session_id == Some(session))
}

/// Session-keyed view of one slot's entries (row badges, cells, facets).
pub fn entries_by_session(
    store: &UiStore,
    registry: &PluginRegistry,
    slot: UiSlot,
    now_ms: u64,
) -> (r: NameMap<Vec<UiEntry>>)
    ensures
        forall|session: Seq<char>| #[trigger]
            r@.contains_key(session) <==> entries_of_session(
                slot_entries(store@.state, registry.plugins@, slot, None, now_ms),
                session,
            ).len() > 0,
        forall|session: Seq<char>| #[trigger]
            r@.contains_key(session) ==> entry_models(r@[session]@) == entries_of_session(
                slot_entries(store@.state, registry.plugins@, slot, None, now_ms),
                session,
            ),
{
    let list = entries(store, registry, slot, None, now_ms);
    let ghost rows = list@;
    let ghost all = entry_models(rows);
    let mut map: NameMap<Vec<UiEntry>> = NameMap::new();
    proof {
        reveal(Seq::filter);
    }
    for entry in it: list
        invariant
            it.seq() == rows,
            all == entry_models(rows),
            forall|session: Seq<char>| #[trigger]
                map@.contains_key(session) <==> entries_of_session(
                    all.take(it.index()),
                    session,
                ).len() > 0,
            forall|session: Seq<char>| #[trigger]
                map@.contains_key(session) ==> entry_models(map@[session]@) == entries_of_session(
                    all.take(it.index()),
                    session,
                ),
    {
        let ghost i = it.index();
        let ghost model = entry@;
        let ghost before = map@;
        assert forall|session: Seq<char>|
            #![trigger entries_of_session(all.take(i + 1), session)]
            entries_of_session(all.take(i + 1), session) == if model.session_id == Some(session) {
                entries_of_session(all.take(i), session).push(model)
            } else {
                entries_of_session(all.take(i), session)
            } by {
            lists::filter_grows(all, i, |e: EntryModel| e.session_id == Some(session));
        }
        let session_id = copy_optional(&entry.session_id);
        if let Some(session_id) = session_id {
            let mut group = match map.remove(session_id.as_str()) {
                Some(group) => group,
                None => Vec::new(),
            };
            proof {
                if !before.contains_key(session_id@) {
                    assert(entry_models(group@) =~= entries_of_session(all.take(i), session_id@));
                }
            }
            let ghost head = entry_models(group@);
            group.push(entry);
            assert(entry_models(group@) =~= head.push(model));
            map.insert(session_id.as_str(), group);
            assert forall|session: Seq<char>| #[trigger] map@.contains_key(session)
                <==> entries_of_session(all.take(i + 1), session).len() > 0 by {
                assert(map@.contains_key(session) <==> before.contains_key(session) || session
                    == session_id@);
            }
            assert forall|session: Seq<char>| #[trigger] map@.contains_key(session) implies
                entry_models(map@[session]@) == entries_of_session(all.take(i + 1), session) by {
                if session != session_id@ {
                    assert(before.contains_key(session));
                }
            }
        } else {
            assert forall|session: Seq<char>| #[trigger] map@.contains_key(session)
                <==> entries_of_session(all.take(i + 1), session).len() > 0 by {}
            assert forall|session: Seq<char>| #[trigger] map@.contains_key(session) implies
                entry_models(map@[session]@) == entries_of_session(all.take(i + 1), session) by {}
        }
    }
    assert(all.take(all.len() as int) =~= all);
    map
}

/// The number that an entry gives its session under a sort-key contribution.
pub open spec fn sort_key_of(
    entry: EntryModel,
    plugin_id: Seq<char>,
    contribution_id: Seq<char>,
) -> Option<(Seq<char>, FloatBits)> {
    match (entry.session_id, entry.payload) {
        (Some(session), PayloadModel::SortKey { key, .. }) => if entry.plugin_id == plugin_id
            && entry.contribution_id == contribution_id {
            Some((session, key))
        } else {
            None
        },
        _ => None,
    }
}

/// The numbers that entries give their sessions; a later one counts.
pub open spec fn sort_key_map(
    entries: Seq<EntryModel>,
    plugin_id: Seq<char>,
    contribution_id: Seq<char>,
) -> Map<Seq<char>, FloatBits>
    decreases entries.len(),
{
    if entries.len() == 0 {
        Map::empty()
    } else {
        let head = sort_key_map(entries.drop_last(), plugin_id, contribution_id);
        match sort_key_of(entries.last(), plugin_id, contribution_id) {
            Some((session, key)) => head.insert(session, key),
            None => head,
        }
    }
}

/// The numeric keys one sort-key contribution pushed, per session.
pub fn sort_keys(
    store: &UiStore,
    registry: &PluginRegistry,
    plugin_id: &str,
    contribution_id: &str,
    now_ms: u64,
) -> (r: NameMap<FloatBits>)
    ensures
        r@ == sort_key_map(
            slot_entries(
                store@.state,
                registry.plugins@,
                UiSlot::SessionListSortKey,
                None,
                now_ms,
            ),
            plugin_id@,
            contribution_id@,
        ),
{
    let list = entries(store, registry, UiSlot::SessionListSortKey, None, now_ms);
    let ghost all = entry_models(list@);
    let mut map: NameMap<FloatBits> = NameMap::new();
    let mut i: usize = 0;
    while i < list.len()
        invariant
            i <= list.len(),
            all == entry_models(list@),
            map@ == sort_key_map(all.take(i as int), plugin_id@, contribution_id@),
        decreases list.len() - i,
    {
        let entry = &list[i];
        assert(all.take(i + 1).drop_last() =~= all.take(i as int));
        assert(all.take(i + 1).last() == entry@);
        if same_text(entry.plugin_id.as_str(), plugin_id) && same_text(
            entry.contribution_id.as_str(),
            contribution_id,
        ) {
            match (&entry.session_id, &entry.payload) {
                (Some(session), UiPayload::SortKey { key, .. }) => {
                    map.insert(session.as_str(), *key);
                },
                _ => {},
            }
        }
        i += 1;
    }
    assert(all.take(i as int) =~= all);
    map
}

/// The facet texts of entries, one per entry with facets.
pub open spec fn facet_texts(entries: Seq<EntryModel>) -> Seq<Seq<char>>
    decreases entries.len(),
{
    if entries.len() == 0 {
        seq![]
    } else {
        let head = facet_texts(entries.drop_last());
        match entries.last().payload {
            PayloadModel::Facets { values } => head.push(text::joined(values, " "@)),
            _ => head,
        }
    }
}

/// Facet values per session flattened into one searchable string, appended
/// to the session search haystack so typing a facet value filters the list.
pub fn facet_haystack(
    store: &UiStore,
    registry: &PluginRegistry,
    session_id: &str,
    now_ms: u64,
) -> (r: String)
    ensures
        r@ == text::joined(
            facet_texts(
                slot_entries(
                    store@.state,
                    registry.plugins@,
                    UiSlot::SessionListFilterFacet,
                    Some(session_id@),
                    now_ms,
                ),
            ),
            " "@,
        ),
{
    let list = entries(store, registry, UiSlot::SessionListFilterFacet, Some(session_id), now_ms);
    let ghost all = entry_models(list@);
    let mut parts: Vec<String> = Vec::new();
    assert(text::texts(parts@) =~= facet_texts(all.take(0)));
    let mut i: usize = 0;
    while i < list.len()
        invariant
            i <= list.len(),
            all == entry_models(list@),
            text::texts(parts@) == facet_texts(all.take(i as int)),
        decreases list.len() - i,
    {
        assert(all.take(i + 1).drop_last() =~= all.take(i as int));
        assert(all.take(i + 1).last() == list@[i as int]@);
        if let UiPayload::Facets { values } = &list[i].payload {
            let ghost before = text::texts(parts@);
            assert(text::texts(values@).take(values.len() as int) =~= text::texts(values@));
            let part = join_texts(values, values.len(), " ");
            let ghost model = part@;
            parts.push(part);
            assert(text::texts(parts@) =~= before.push(model));
        }
        i += 1;
    }
    assert(all.take(i as int) =~= all);
    assert(text::texts(parts@).take(parts.len() as int) =~= text::texts(parts@));
    join_texts(&parts, parts.len(), " ")
}

proof fn sorted_members(rows: Seq<EntryModel>)
    ensures
        forall|e: EntryModel| #[trigger]
            sorting::stable_sorted::<UiEntry>(rows).contains(e) <==> rows.contains(e),
{
    broadcast use vstd::seq_lib::group_to_multiset_ensures;

    let sorted = sorting::stable_sorted::<UiEntry>(rows);
    sorting::sorting_keeps_rows::<UiEntry>(rows);
    assert forall|e: EntryModel| #[trigger] sorted.contains(e) <==> rows.contains(e) by {
        assert(sorted.contains(e) <==> sorted.to_multiset().count(e) > 0);
        assert(rows.contains(e) <==> rows.to_multiset().count(e) > 0);
    }
}

proof fn live_members(
    state: Seq<StateModel>,
    plugins: Seq<LoadedPlugin>,
    slot: UiSlot,
    wanted: Option<Seq<char>>,
    now_ms: u64,
)
    ensures
        forall|e: EntryModel| #[trigger]
            live_entries(state, plugins, slot, wanted, now_ms).contains(e) <==> exists|i: int|
                0 <= i < state.len() && entry_of(#[trigger] state[i], plugins, slot, wanted, now_ms)
                    == Some(e),
    decreases state.len(),
{
    if state.len() > 0 {
        let head = state.drop_last();
        let before = live_entries(head, plugins, slot, wanted, now_ms);
        let all = live_entries(state, plugins, slot, wanted, now_ms);
        let last = entry_of(state.last(), plugins, slot, wanted, now_ms);
        live_members(head, plugins, slot, wanted, now_ms);
        assert forall|e: EntryModel| #[trigger] all.contains(e) <==> exists|i: int|
            0 <= i < state.len() && entry_of(#[trigger] state[i], plugins, slot, wanted, now_ms)
                == Some(e) by {
            if all.contains(e) {
                let k = choose|k: int| 0 <= k < all.len() && all[k] == e;
                if k < before.len() {
                    assert(before[k] == e);
                    assert(before.contains(e));
                    let i = choose|i: int|
                        0 <= i < head.len() && entry_of(
                            #[trigger] head[i],
                            plugins,
                            slot,
                            wanted,
                            now_ms,
                        ) == Some(e);
                    assert(state[i] == head[i]);
                } else {
                    assert(entry_of(state[state.len() - 1], plugins, slot, wanted, now_ms) == Some(
                        e,
                    ));
                }
            }
            if exists|i: int|
                0 <= i < state.len() && entry_of(#[trigger] state[i], plugins, slot, wanted, now_ms)
                    == Some(e) {
                let i = choose|i: int|
                    0 <= i < state.len() && entry_of(
                        #[trigger] state[i],
                        plugins,
                        slot,
                        wanted,
                        now_ms,
                    ) == Some(e);
                if i < head.len() {
                    assert(head[i] == state[i]);
                    assert(before.contains(e));
                    let k = choose|k: int| 0 <= k < before.len() && before[k] == e;
                    assert(all[k] == e);
                } else {
                    assert(all[all.len() - 1] == e);
                }
            }
        }
    }
}

/// The entries of a slot are exactly what the live state of plugins that take
/// part gives: expired state is skipped, and so is state of other plugins, of
/// other slots and of other sessions than the one wanted.
pub proof fn entries_are_the_live_state(
    state: Seq<StateModel>,
    plugins: Seq<LoadedPlugin>,
    slot: UiSlot,
    wanted: Option<Seq<char>>,
    now_ms: u64,
    entry: EntryModel,
)
    ensures
        slot_entries(state, plugins, slot, wanted, now_ms).contains(entry) <==> exists|i: int|
            0 <= i < state.len() && entry_of(#[trigger] state[i], plugins, slot, wanted, now_ms)
                == Some(entry),
{
    live_members(state, plugins, slot, wanted, now_ms);
    sorted_members(live_entries(state, plugins, slot, wanted, now_ms));
}

/// Whether an entry shows what takes this place.
pub open spec fn at_place(
    entry: EntryModel,
    plugin_id: Seq<char>,
    contribution_id: Seq<char>,
    session: Option<Seq<char>>,
) -> bool {
    entry.plugin_id == plugin_id && entry.contribution_id == contribution_id && entry.session_id
        == session
}

/// A slot shows at most one entry for a place.
pub proof fn entries_have_distinct_places(
    state: Seq<StateModel>,
    plugins: Seq<LoadedPlugin>,
    slot: UiSlot,
    wanted: Option<Seq<char>>,
    now_ms: u64,
    a: EntryModel,
    b: EntryModel,
)
    requires
        distinct_places(state),
        slot_entries(state, plugins, slot, wanted, now_ms).contains(a),
        slot_entries(state, plugins, slot, wanted, now_ms).contains(b),
        at_place(a, b.plugin_id, b.contribution_id, b.session_id),
    ensures
        a == b,
{
    entries_are_the_live_state(state, plugins, slot, wanted, now_ms, a);
    entries_are_the_live_state(state, plugins, slot, wanted, now_ms, b);
    let i = choose|i: int|
        0 <= i < state.len() && entry_of(#[trigger] state[i], plugins, slot, wanted, now_ms)
            == Some(a);
    let j = choose|j: int|
        0 <= j < state.len() && entry_of(#[trigger] state[j], plugins, slot, wanted, now_ms)
            == Some(b);
    assert(same_place(state[i], state[j]) && same_place(state[j], state[i]));
    if i < j {
        assert(!same_place(state[i], state[j]));
    } else if j < i {
        assert(!same_place(state[j], state[i]));
    }
}

/// Putting a piece of state changes its own place and no other.
pub proof fn push_changes_one_place(state: Seq<StateModel>, row: StateModel, other: StateModel)
    requires
        distinct_places(state),
    ensures
        upserted(state, row).contains(other) <==> other == row || (state.contains(other)
            && !same_place(other, row)),
{
    place_of_bounds(state, row);
    let at = place_of(state, row) as int;
    let out = upserted(state, row);
    if at < state.len() {
        assert(out[at] == row);
    } else {
        assert(out[state.len() as int] == row);
    }
    if out.contains(other) && other != row {
        let k = choose|k: int| 0 <= k < out.len() && out[k] == other;
        assert(state[k] == other);
        if same_place(other, row) {
            if k < at {
                assert(!same_place(state[k], row));
            } else if k > at {
                assert(!same_place(state[at], state[k]));
            }
        }
    }
    if state.contains(other) && !same_place(other, row) {
        let k = choose|k: int| 0 <= k < state.len() && state[k] == other;
        assert(out[k] == other);
    }
}

proof fn first_is_in_its_slot(ui: Seq<UiContribution>, id: Seq<char>)
    requires
        find_contribution(ui, id) is Some,
    ensures
        find_in_slot(ui, id, find_contribution(ui, id)->0.slot) == find_contribution(ui, id),
    decreases ui.len(),
{
    if ui.len() > 0 && ui[0].id@ != id {
        first_is_in_its_slot(ui.drop_first(), id);
    }
}

/// Whatever is shown is within the caps: an oversized push never reaches a
/// renderer.
pub proof fn shown_payloads_are_capped(
    store: StoreModel,
    plugins: Seq<LoadedPlugin>,
    slot: UiSlot,
    wanted: Option<Seq<char>>,
    now_ms: u64,
    entry: EntryModel,
)
    requires
        store_ok(store),
        slot_entries(store.state, plugins, slot, wanted, now_ms).contains(entry),
    ensures
        size_problem(entry.payload) is None,
{
    entries_are_the_live_state(store.state, plugins, slot, wanted, now_ms, entry);
}

/// What a plugin pushed for a declared contribution is what its slot shows
/// for that place, until it expires.
pub proof fn pushed_state_is_shown(
    store: StoreModel,
    plugins: Seq<LoadedPlugin>,
    row: StateModel,
    entry: EntryModel,
    now_ms: u64,
)
    requires
        store_ok(store),
        declared_contribution(plugins, row.plugin_id, row.contribution_id) is Some,
        is_live(row, now_ms),
    ensures
        ({
            let c = declared_contribution(plugins, row.plugin_id, row.contribution_id)->0;
            let shown = slot_entries(
                with_state(store, row).state,
                plugins,
                c.slot,
                row.session,
                now_ms,
            );
            shown.contains(entry) && at_place(
                entry,
                row.plugin_id,
                row.contribution_id,
                row.session,
            ) <==> entry == EntryModel {
                plugin_id: row.plugin_id,
                contribution_id: row.contribution_id,
                slot: c.slot,
                title: c.title@,
                priority: c.priority,
                session_id: row.session,
                payload: row.payload,
            }
        }),
{
    let c = declared_contribution(plugins, row.plugin_id, row.contribution_id)->0;
    let plugin = registry::find_active(plugins, row.plugin_id)->0;
    first_is_in_its_slot(plugin.manifest.ui@, row.contribution_id);
    let state = with_state(store, row).state;
    upserted_distinct(store.state, row);
    push_changes_one_place(store.state, row, row);
    let k = choose|k: int| 0 <= k < state.len() && state[k] == row;
    let own = entry_of(row, plugins, c.slot, row.session, now_ms)->0;
    assert(entry_of(state[k], plugins, c.slot, row.session, now_ms) == Some(own));
    entries_are_the_live_state(state, plugins, c.slot, row.session, now_ms, own);
    if slot_entries(state, plugins, c.slot, row.session, now_ms).contains(entry) && at_place(
        entry,
        row.plugin_id,
        row.contribution_id,
        row.session,
    ) {
        entries_have_distinct_places(
            state,
            plugins,
            c.slot,
            row.session,
            now_ms,
            entry,
            own,
        );
    }
}

/// A plugin that is not among the active ones shows nothing after an
/// eviction, and none of its notifications stays.
pub proof fn evicted_plugins_vanish(
    store: StoreModel,
    ids: Seq<Seq<char>>,
    plugins: Seq<LoadedPlugin>,
    slot: UiSlot,
    wanted: Option<Seq<char>>,
    now_ms: u64,
    plugin_id: Seq<char>,
)
    requires
        !ids.contains(plugin_id),
    ensures
        forall|i: int|
            0 <= i < slot_entries(
                rows_of(store.state, ids),
                plugins,
                slot,
                wanted,
                now_ms,
            ).len() ==> (#[trigger] slot_entries(
                rows_of(store.state, ids),
                plugins,
                slot,
                wanted,
                now_ms,
            )[i]).plugin_id != plugin_id,
        forall|i: int|
            0 <= i < notes_of(store.notifications, ids).len() ==> (#[trigger] notes_of(
                store.notifications,
                ids,
            )[i]).plugin_id != plugin_id,
{
    broadcast use Seq::lemma_filter_pred;

    let state = rows_of(store.state, ids);
    let shown = slot_entries(state, plugins, slot, wanted, now_ms);
    assert forall|i: int| 0 <= i < shown.len() implies (#[trigger] shown[i]).plugin_id
        != plugin_id by {
        assert(shown.contains(shown[i]));
        entries_are_the_live_state(state, plugins, slot, wanted, now_ms, shown[i]);
        let k = choose|k: int|
            0 <= k < state.len() && entry_of(#[trigger] state[k], plugins, slot, wanted, now_ms)
                == Some(shown[i]);
        let keep = |row: StateModel| ids.contains(row.plugin_id);
        assert(keep(store.state.filter(keep)[k]));
    }
    let notes = notes_of(store.notifications, ids);
    assert forall|i: int| 0 <= i < notes.len() implies (#[trigger] notes[i]).plugin_id
        != plugin_id by {
        let keep = |n: NotificationModel| ids.contains(n.plugin_id);
        assert(keep(store.notifications.filter(keep)[i]));
    }
}

/// What a plugin that stays had pushed stays too.
pub proof fn eviction_keeps_active_plugins(store: StoreModel, ids: Seq<Seq<char>>, row: StateModel)
    requires
        store.state.contains(row),
        ids.contains(row.plugin_id),
    ensures
        rows_of(store.state, ids).contains(row),
{
    let keep = |row: StateModel| ids.contains(row.plugin_id);
    let k = choose|k: int| 0 <= k < store.state.len() && store.state[k] == row;
    assert(keep(store.state[k]));
    store.state.lemma_filter_contains(keep, k);
}

/// After a removal no slot shows what was removed.
pub proof fn removed_state_is_not_shown(
    state: Seq<StateModel>,
    plugins: Seq<LoadedPlugin>,
    slot: UiSlot,
    wanted: Option<Seq<char>>,
    now_ms: u64,
    plugin_id: Seq<char>,
    contribution_id: Seq<char>,
    session_id: Option<Seq<char>>,
    entry: EntryModel,
)
    requires
        slot_entries(
            after_removal(state, plugin_id, contribution_id, session_id),
            plugins,
            slot,
            wanted,
            now_ms,
        ).contains(entry),
    ensures
        !(entry.plugin_id == plugin_id && entry.contribution_id == contribution_id && (session_id
            is None || entry.session_id == session_id)),
{
    let left = after_removal(state, plugin_id, contribution_id, session_id);
    entries_are_the_live_state(left, plugins, slot, wanted, now_ms, entry);
    let k = choose|k: int|
        0 <= k < left.len() && entry_of(#[trigger] left[k], plugins, slot, wanted, now_ms) == Some(
            entry,
        );
    let keep = |row: StateModel| !removal_takes(row, plugin_id, contribution_id, session_id);
    state.lemma_filter_pred(keep, k);
    assert(keep(left[k]));
}

/// The notifications come newest first, their numbers fall, and there are
/// never more than the ring holds.
pub proof fn notifications_are_newest_first(store: StoreModel)
    requires
        store_ok(store),
    ensures
        store.notifications.reverse().len() <= MAX_NOTIFICATIONS,
        forall|i: int, j: int|
            0 <= i < j < store.notifications.reverse().len() ==> (
            #[trigger] store.notifications.reverse()[i]).seq > (
            #[trigger] store.notifications.reverse()[j]).seq,
{
}

/// A new notification comes first, with a higher number than any before, and
/// as many of the earlier ones follow as the ring has room for.
pub proof fn ring_keeps_the_newest(store: StoreModel, note: NotificationModel)
    requires
        store_ok(store),
        store.last_seq < u64::MAX,
        note.seq == store.last_seq + 1,
    ensures
        ({
            let before = store.notifications.reverse();
            let after = ring_with(store.notifications, note).reverse();
            let kept = if before.len() < MAX_NOTIFICATIONS {
                before.len() as int
            } else {
                MAX_NOTIFICATIONS - 1
            };
            &&& after == seq![note] + before.take(kept)
            &&& forall|i: int| 0 <= i < before.len() ==> (#[trigger] before[i]).seq < note.seq
        }),
{
    let before = store.notifications.reverse();
    let after = ring_with(store.notifications, note).reverse();
    let kept = if before.len() < MAX_NOTIFICATIONS {
        before.len() as int
    } else {
        MAX_NOTIFICATIONS - 1
    };
    assert(after =~= seq![note] + before.take(kept));
}

/// The store after some notifications were taken, one after another.
pub open spec fn all_noted(store: StoreModel, notes: Seq<NotificationModel>) -> StoreModel
    decreases notes.len(),
{
    if notes.len() == 0 {
        store
    } else {
        noted(all_noted(store, notes.drop_last()), notes.last())
    }
}

/// Whether notifications carry the numbers that they get when they are taken
/// one after another.
pub open spec fn numbered_from(notes: Seq<NotificationModel>, last_seq: u64) -> bool {
    forall|i: int| 0 <= i < notes.len() ==> (#[trigger] notes[i]).seq == last_seq + 1 + i
}

/// After any number of notifications since the ring was empty, it holds the
/// newest of them, as many as it has room for, and lists them newest first,
/// their numbers falling.
pub proof fn ring_holds_the_newest(store: StoreModel, notes: Seq<NotificationModel>)
    requires
        store.notifications.len() == 0,
        store.last_seq + notes.len() <= u64::MAX,
        numbered_from(notes, store.last_seq),
    ensures
        ({
            let after = all_noted(store, notes);
            let shown = after.notifications.reverse();
            &&& shown.len() == (if notes.len() < MAX_NOTIFICATIONS {
                notes.len()
            } else {
                MAX_NOTIFICATIONS as nat
            })
            &&& forall|i: int|
                0 <= i < shown.len() ==> #[trigger] shown[i] == notes[notes.len() - 1 - i]
            &&& forall|i: int, j: int|
                0 <= i < j < shown.len() ==> (#[trigger] shown[i]).seq > (#[trigger] shown[j]).seq
            &&& after.last_seq == store.last_seq + notes.len()
            &&& after.state == store.state
        }),
    decreases notes.len(),
{
    let after = all_noted(store, notes);
    let shown = after.notifications.reverse();
    if notes.len() > 0 {
        let rest = notes.drop_last();
        assert forall|i: int| 0 <= i < rest.len() implies (#[trigger] rest[i]).seq
            == store.last_seq + 1 + i by {
            assert(notes[i].seq == store.last_seq + 1 + i);
        }
        ring_holds_the_newest(store, rest);
        let before = all_noted(store, rest).notifications;
        assert(notes[notes.len() - 1].seq == store.last_seq + notes.len());
        assert forall|i: int| 0 <= i < shown.len() implies #[trigger] shown[i] == notes[notes.len()
            - 1 - i] by {
            if i > 0 {
                assert(before.reverse()[i - 1] == rest[rest.len() - i]);
                assert(shown[i] == before.reverse()[i - 1]);
            }
        }
    }
    assert forall|i: int, j: int| 0 <= i < j < shown.len() implies (#[trigger] shown[i]).seq > (
    #[trigger] shown[j]).seq by {
        assert(notes[notes.len() - 1 - i].seq == store.last_seq + notes.len() - i);
        assert(notes[notes.len() - 1 - j].seq == store.last_seq + notes.len() - j);
    }
}

/// Every mutation changes the counter.
pub proof fn mutations_change_the_revision(revision: u64)
    ensures
        bumped(revision) != revision,
{
}

/// The sort keys read back what each session's entry gives.
pub proof fn sort_keys_read_entries(
    state: Seq<StateModel>,
    plugins: Seq<LoadedPlugin>,
    now_ms: u64,
    plugin_id: Seq<char>,
    contribution_id: Seq<char>,
    entry: EntryModel,
)
    requires
        distinct_places(state),
        slot_entries(state, plugins, UiSlot::SessionListSortKey, None, now_ms).contains(entry),
        sort_key_of(entry, plugin_id, contribution_id) is Some,
    ensures
        ({
            let map = sort_key_map(
                slot_entries(state, plugins, UiSlot::SessionListSortKey, None, now_ms),
                plugin_id,
                contribution_id,
            );
            let (session, key) = sort_key_of(entry, plugin_id, contribution_id)->0;
            map.contains_key(session) && map[session] == key
        }),
{
    let all = slot_entries(state, plugins, UiSlot::SessionListSortKey, None, now_ms);
    let k = choose|k: int| 0 <= k < all.len() && all[k] == entry;
    assert forall|a: EntryModel, b: EntryModel|
        all.contains(a) && all.contains(b) && at_place(
            a,
            b.plugin_id,
            b.contribution_id,
            b.session_id,
        ) implies a == b by {
        entries_have_distinct_places(
            state,
            plugins,
            UiSlot::SessionListSortKey,
            None,
            now_ms,
            a,
            b,
        );
    }
    sort_key_map_reads(all, all.len() as int, plugin_id, contribution_id, k);
    assert(all.take(all.len() as int) =~= all);
}

proof fn sort_key_map_reads(
    all: Seq<EntryModel>,
    n: int,
    plugin_id: Seq<char>,
    contribution_id: Seq<char>,
    k: int,
)
    requires
        0 <= k < n <= all.len(),
        sort_key_of(all[k], plugin_id, contribution_id) is Some,
        forall|a: EntryModel, b: EntryModel|
            all.contains(a) && all.contains(b) && at_place(
                a,
                b.plugin_id,
                b.contribution_id,
                b.session_id,
            ) ==> a == b,
    ensures
        ({
            let map = sort_key_map(all.take(n), plugin_id, contribution_id);
            let (session, key) = sort_key_of(all[k], plugin_id, contribution_id)->0;
            map.contains_key(session) && map[session] == key
        }),
    decreases n,
{
    assert(all.take(n).drop_last() =~= all.take(n - 1));
    assert(all.take(n).last() == all[n - 1]);
    if k < n - 1 {
        sort_key_map_reads(all, n - 1, plugin_id, contribution_id, k);
        assert(all.contains(all[k]) && all.contains(all[n - 1]));
        let last = all[n - 1];
        if sort_key_of(last, plugin_id, contribution_id) is Some && last.session_id
            == all[k].session_id {
            assert(at_place(all[k], last.plugin_id, last.contribution_id, last.session_id));
        }
    }
}

/// The numbers that are neither infinite nor NaN are those whose size, without
/// the sign, is below infinity.
pub proof fn finite_numbers_are_below_infinity(bits: u64)
    ensures
        finite_bits(bits) <==> bits & 0x7fff_ffff_ffff_ffff < 0x7ff0_0000_0000_0000,
{
    assert(((bits >> 52) & 0x7ff != 0x7ff) <==> bits & 0x7fff_ffff_ffff_ffff
        < 0x7ff0_0000_0000_0000) by (bit_vector);
}

/// A badge stands in the status bar, in a session's row or in its header, a
/// cell in a column, a sort key in a sort mode, facets in a filter, and blocks
/// on a card or a panel; each within its caps, and nowhere else.
pub proof fn payloads_stand_where_they_belong(
    slot: UiSlot,
    text: Seq<char>,
    more: Seq<char>,
    severity: Severity,
    key: Option<FloatBits>,
    bits: FloatBits,
    values: Seq<Seq<char>>,
    blocks: Seq<BlockModel>,
)
    ensures
        payload_problem(PayloadModel::Badge { text, severity, tooltip: more }, slot) is None <==> (
        slot == UiSlot::StatusBarSegment || slot == UiSlot::SessionListRowBadge || slot
            == UiSlot::SessionDetailHeaderBadge) && text.len() <= 200 && more.len() <= 200,
        payload_problem(PayloadModel::Cell { text, severity, sort_key: key }, slot) is None <==> slot
            == UiSlot::SessionListColumn && text.len() <= 200,
        payload_problem(PayloadModel::SortKey { key: bits, reason: text }, slot) is None <==> slot
            == UiSlot::SessionListSortKey && finite_bits(bits.bits) && text.len() <= 200,
        payload_problem(PayloadModel::Facets { values }, slot) is None <==> slot
            == UiSlot::SessionListFilterFacet && values.len() <= 8 && forall|i: int|
            0 <= i < values.len() ==> (#[trigger] values[i]).len() <= 200,
        payload_problem(PayloadModel::Blocks { severity, blocks }, slot) is None <==> (slot
            == UiSlot::DashboardCard || slot == UiSlot::SessionDetailPanel) && blocks.len() <= 32
            && forall|i: int|
            0 <= i < blocks.len() ==> block_problem(#[trigger] blocks[i]) is None,
{
    blocks_pass_one_by_one(blocks);
    if any_too_long(values) {
        let i = choose|i: int| 0 <= i < values.len() && too_long(#[trigger] values[i]);
        assert(values[i].len() > 200);
    } else {
        assert forall|i: int| 0 <= i < values.len() implies (#[trigger] values[i]).len() <= 200 by {
            assert(!too_long(values[i]));
        }
    }
}

proof fn blocks_pass_one_by_one(blocks: Seq<BlockModel>)
    ensures
        blocks_problem(blocks) is None <==> forall|i: int|
            0 <= i < blocks.len() ==> block_problem(#[trigger] blocks[i]) is None,
    decreases blocks.len(),
{
    if blocks.len() > 0 {
        let tail = blocks.drop_first();
        blocks_pass_one_by_one(tail);
        if blocks_problem(blocks) is None {
            assert forall|i: int| 0 <= i < blocks.len() implies block_problem(
                #[trigger] blocks[i],
            ) is None by {
                if i > 0 {
                    assert(tail[i - 1] == blocks[i]);
                }
            }
        } else if block_problem(blocks[0]) is None {
            let k = choose|k: int| 0 <= k < tail.len() && block_problem(#[trigger] tail[k]) is Some;
            assert(blocks[k + 1] == tail[k]);
        }
    }
}

/// A block is taken where each of its texts has at most two hundred characters
/// and it lists at most sixty-four items.
pub proof fn blocks_are_capped(
    text: Seq<char>,
    more: Seq<char>,
    severity: Severity,
    rows: Seq<(Seq<char>, Seq<char>)>,
    items: Seq<Seq<char>>,
)
    ensures
        block_problem(BlockModel::Text { text, severity }) is None <==> text.len() <= 200,
        block_problem(BlockModel::Metric { label: text, value: more }) is None <==> text.len()
            <= 200 && more.len() <= 200,
        block_problem(BlockModel::Kv { items: rows }) is None <==> rows.len() <= 64 && forall|
            i: int,
        |
            0 <= i < rows.len() ==> (#[trigger] rows[i]).0.len() <= 200 && rows[i].1.len() <= 200,
        block_problem(BlockModel::List { items }) is None <==> items.len() <= 64 && forall|i: int|
            0 <= i < items.len() ==> (#[trigger] items[i]).len() <= 200,
{
    if any_too_long(items) {
        let i = choose|i: int| 0 <= i < items.len() && too_long(#[trigger] items[i]);
        assert(items[i].len() > 200);
    } else {
        assert forall|i: int| 0 <= i < items.len() implies (#[trigger] items[i]).len() <= 200 by {
            assert(!too_long(items[i]));
        }
    }
    if block_problem(BlockModel::Kv { items: rows }) is None {
        assert forall|i: int| 0 <= i < rows.len() implies (#[trigger] rows[i]).0.len() <= 200
            && rows[i].1.len() <= 200 by {
            assert(!too_long(rows[i].0) && !too_long(rows[i].1));
        }
    } else if rows.len() <= 64 {
        let i = choose|i: int|
            0 <= i < rows.len() && (too_long((#[trigger] rows[i]).0) || too_long(rows[i].1));
        assert(rows[i].0.len() > 200 || rows[i].1.len() > 200);
    }
}

proof fn first_contribution(ui: Seq<UiContribution>, id: Seq<char>, k: int)
    requires
        0 <= k < ui.len(),
        ui[k].id@ == id,
        forall|j: int| 0 <= j < k ==> (#[trigger] ui[j]).id@ != id,
    ensures
        find_contribution(ui, id) == Some(ui[k]),
    decreases ui.len(),
{
    if k > 0 {
        assert(ui[0].id@ != id);
        let tail = ui.drop_first();
        assert forall|j: int| 0 <= j < k - 1 implies (#[trigger] tail[j]).id@ != id by {
            assert(ui[j + 1].id@ != id);
        }
        first_contribution(tail, id, k - 1);
    }
}

proof fn no_contribution(ui: Seq<UiContribution>, id: Seq<char>)
    requires
        forall|j: int| 0 <= j < ui.len() ==> (#[trigger] ui[j]).id@ != id,
    ensures
        find_contribution(ui, id) is None,
    decreases ui.len(),
{
    if ui.len() > 0 {
        let tail = ui.drop_first();
        assert forall|j: int| 0 <= j < tail.len() implies (#[trigger] tail[j]).id@ != id by {
            assert(ui[j + 1].id@ != id);
        }
        no_contribution(tail, id);
    }
}

proof fn first_in_slot(ui: Seq<UiContribution>, id: Seq<char>, slot: UiSlot, k: int)
    requires
        0 <= k < ui.len(),
        ui[k].id@ == id,
        ui[k].slot == slot,
        forall|j: int|
            0 <= j < k ==> !((#[trigger] ui[j]).id@ == id && ui[j].slot == slot),
    ensures
        find_in_slot(ui, id, slot) == Some(ui[k]),
    decreases ui.len(),
{
    if k > 0 {
        assert(!(ui[0].id@ == id && ui[0].slot == slot));
        let tail = ui.drop_first();
        assert forall|j: int| 0 <= j < k - 1 implies !((#[trigger] tail[j]).id@ == id
            && tail[j].slot == slot) by {
            assert(!(ui[j + 1].id@ == id && ui[j + 1].slot == slot));
        }
        first_in_slot(tail, id, slot, k - 1);
    }
}

proof fn found_in_slot(ui: Seq<UiContribution>, id: Seq<char>, slot: UiSlot)
    ensures
        find_in_slot(ui, id, slot) matches Some(c) ==> ui.contains(c) && c.id@ == id && c.slot
            == slot,
    decreases ui.len(),
{
    if ui.len() > 0 {
        if ui[0].id@ == id && ui[0].slot == slot {
            assert(ui.contains(ui[0]));
        } else {
            let tail = ui.drop_first();
            found_in_slot(tail, id, slot);
            if find_in_slot(tail, id, slot) is Some {
                let c = find_in_slot(tail, id, slot)->0;
                let k = choose|k: int| 0 <= k < tail.len() && tail[k] == c;
                assert(ui[k + 1] == c);
            }
        }
    }
}

/// A push is stored exactly where its plugin takes part and declares the
/// contribution, the payload fits the contribution's slot, and a session is
/// given for a slot of sessions and for no other.
pub proof fn pushes_are_held_to_the_manifest(
    plugins: Seq<LoadedPlugin>,
    plugin_id: Seq<char>,
    contribution_id: Seq<char>,
    session_id: Option<Seq<char>>,
    payload: PayloadModel,
    at: int,
    k: int,
)
    requires
        0 <= at < plugins.len(),
        plugins[at].manifest.id@ == plugin_id,
        forall|j: int| 0 <= j < at ==> (#[trigger] plugins[j]).manifest.id@ != plugin_id,
        0 <= k < plugins[at].manifest.ui.len(),
        plugins[at].manifest.ui@[k].id@ == contribution_id,
        forall|j: int|
            0 <= j < k ==> (#[trigger] plugins[at].manifest.ui@[j]).id@ != contribution_id,
    ensures
        ({
            let slot = plugins[at].manifest.ui@[k].slot;
            let shared = slot == UiSlot::StatusBarSegment || slot == UiSlot::DashboardCard;
            &&& push_problem(plugins, plugin_id, contribution_id, session_id, payload) is None
                <==> plugins[at].enabled && plugins[at].granted && payload_problem(payload, slot)
                is None && shared == (session_id is None)
            &&& contribution_problem(plugins, plugin_id, contribution_id) is None
                <==> plugins[at].enabled && plugins[at].granted
            &&& plugins[at].enabled && plugins[at].granted ==> declared_contribution(
                plugins,
                plugin_id,
                contribution_id,
            ) == Some(plugins[at].manifest.ui@[k])
        }),
{
    registry::lookups_find_the_first(plugins, plugin_id, at);
    first_contribution(plugins[at].manifest.ui@, contribution_id, k);
}

/// A plugin that is not known, and one that does not declare the contribution,
/// can neither push for it nor remove it.
pub proof fn undeclared_pushes_are_refused(
    plugins: Seq<LoadedPlugin>,
    plugin_id: Seq<char>,
    contribution_id: Seq<char>,
    session_id: Option<Seq<char>>,
    payload: PayloadModel,
)
    requires
        forall|i: int, j: int|
            0 <= i < plugins.len() && 0 <= j < plugins[i].manifest.ui.len()
                && plugins[i].manifest.id@ == plugin_id
                ==> (#[trigger] plugins[i].manifest.ui@[j]).id@ != contribution_id,
    ensures
        push_problem(plugins, plugin_id, contribution_id, session_id, payload) is Some,
        contribution_problem(plugins, plugin_id, contribution_id) is Some,
{
    registry::found_plugins_are_known(plugins, plugin_id);
    if registry::find_active(plugins, plugin_id) is Some {
        let p = registry::find_active(plugins, plugin_id)->0;
        let i = choose|i: int| 0 <= i < plugins.len() && plugins[i] == p;
        assert forall|j: int| 0 <= j < p.manifest.ui.len() implies (
        #[trigger] p.manifest.ui@[j]).id@ != contribution_id by {
            assert(plugins[i].manifest.ui@[j].id@ != contribution_id);
        }
        no_contribution(p.manifest.ui@, contribution_id);
    }
}

/// A push replaces what its plugin pushed for the same contribution and
/// session, keeps everything else, and lives as long as it was given.
pub proof fn pushes_replace_their_own_place(
    store: StoreModel,
    plugin_id: Seq<char>,
    contribution_id: Seq<char>,
    session_id: Option<Seq<char>>,
    ttl_ms: Option<u64>,
    payload: PayloadModel,
    now_ms: u64,
    other: StateModel,
)
    requires
        forall|i: int, j: int|
            0 <= i < j < store.state.len() ==> !((#[trigger] store.state[i]).plugin_id == (
            #[trigger] store.state[j]).plugin_id && store.state[i].contribution_id
                == store.state[j].contribution_id && store.state[i].session
                == store.state[j].session),
    ensures
        ({
            let row = pushed_row(
                plugin_id,
                contribution_id,
                session_id,
                ttl_ms,
                payload,
                now_ms,
            );
            let after = with_state(store, row);
            &&& row.plugin_id == plugin_id
            &&& row.contribution_id == contribution_id
            &&& row.session == session_id
            &&& row.payload == payload
            &&& ttl_ms is None ==> row.expires_at is None
            &&& ttl_ms matches Some(ms) ==> row.expires_at == Some((now_ms + ms) as u128)
            &&& after.state.contains(other) <==> other == row || (store.state.contains(other) && !(
            other.plugin_id == plugin_id && other.contribution_id == contribution_id
                && other.session == session_id))
            &&& after.notifications == store.notifications
            &&& after.last_seq == store.last_seq
            &&& after.revision != store.revision
        }),
{
    assert(distinct_places(store.state)) by {
        assert forall|i: int, j: int| 0 <= i < j < store.state.len() implies !same_place(
            #[trigger] store.state[i],
            #[trigger] store.state[j],
        ) by {}
    }
    let row = pushed_row(plugin_id, contribution_id, session_id, ttl_ms, payload, now_ms);
    push_changes_one_place(store.state, row, other);
}

/// No two rows of a store have the same plugin, contribution and session, no
/// payload and no notification is over the caps, the ring is bounded, and the
/// numbers rise.
pub proof fn stores_keep_their_promises(store: StoreModel, i: int, j: int)
    requires
        store_ok(store),
    ensures
        0 <= i < j < store.state.len() ==> !(store.state[i].plugin_id == store.state[j].plugin_id
            && store.state[i].contribution_id == store.state[j].contribution_id
            && store.state[i].session == store.state[j].session),
        0 <= i < store.state.len() ==> exists|slot: UiSlot|
            #[trigger] payload_problem(store.state[i].payload, slot) is None,
        store.notifications.len() <= 50,
        0 <= i < j < store.notifications.len() ==> store.notifications[i].seq
            < store.notifications[j].seq,
        0 <= i < store.notifications.len() ==> store.notifications[i].seq <= store.last_seq,
        0 <= i < store.notifications.len() ==> 1 <= store.notifications[i].title.len() <= 200
            && store.notifications[i].body.len() <= 200,
{
    if 0 <= i < j < store.state.len() {
        assert(!same_place(store.state[i], store.state[j]));
    }
    if 0 <= i < store.state.len() {
        let payload = store.state[i].payload;
        assert(size_problem(payload) is None);
        let slot = match payload {
            PayloadModel::Badge { .. } => UiSlot::StatusBarSegment,
            PayloadModel::Cell { .. } => UiSlot::SessionListColumn,
            PayloadModel::SortKey { .. } => UiSlot::SessionListSortKey,
            PayloadModel::Facets { .. } => UiSlot::SessionListFilterFacet,
            PayloadModel::Blocks { .. } => UiSlot::DashboardCard,
        };
        assert(payload_problem(payload, slot) is None);
    }
    if 0 <= i < store.notifications.len() {
        assert(!bad_note(store.notifications[i].title, store.notifications[i].body));
    }
}

/// A removal takes the rows that it names and keeps every other one: those of
/// another plugin, of another contribution and, where a session is given, of
/// another session.
pub proof fn removals_keep_what_they_do_not_name(
    state: Seq<StateModel>,
    plugin_id: Seq<char>,
    contribution_id: Seq<char>,
    session_id: Option<Seq<char>>,
    row: StateModel,
)
    ensures
        after_removal(state, plugin_id, contribution_id, session_id).contains(row)
            <==> state.contains(row) && (row.plugin_id != plugin_id || row.contribution_id
            != contribution_id || (session_id is Some && row.session != session_id)),
{
    let keep = |row: StateModel| !removal_takes(row, plugin_id, contribution_id, session_id);
    let left = after_removal(state, plugin_id, contribution_id, session_id);
    lists::filter_members(state, keep);
    if left.contains(row) {
        let k = choose|k: int| 0 <= k < left.len() && left[k] == row;
        state.lemma_filter_pred(keep, k);
        assert(state.contains(left[k]));
    }
    if state.contains(row) && keep(row) {
        let k = choose|k: int| 0 <= k < state.len() && state[k] == row;
        state.lemma_filter_contains(keep, k);
    }
}

/// After a removal a slot still shows every entry that the removal did not
/// name, and nothing that it did not show before.
pub proof fn removals_keep_other_entries_shown(
    state: Seq<StateModel>,
    plugins: Seq<LoadedPlugin>,
    slot: UiSlot,
    wanted: Option<Seq<char>>,
    now_ms: u64,
    plugin_id: Seq<char>,
    contribution_id: Seq<char>,
    session_id: Option<Seq<char>>,
    entry: EntryModel,
)
    ensures
        slot_entries(
            after_removal(state, plugin_id, contribution_id, session_id),
            plugins,
            slot,
            wanted,
            now_ms,
        ).contains(entry) <==> slot_entries(state, plugins, slot, wanted, now_ms).contains(entry)
            && (entry.plugin_id != plugin_id || entry.contribution_id != contribution_id || (
        session_id is Some && entry.session_id != session_id)),
{
    let left = after_removal(state, plugin_id, contribution_id, session_id);
    entries_are_the_live_state(state, plugins, slot, wanted, now_ms, entry);
    entries_are_the_live_state(left, plugins, slot, wanted, now_ms, entry);
    if slot_entries(left, plugins, slot, wanted, now_ms).contains(entry) {
        let k = choose|k: int|
            0 <= k < left.len() && entry_of(#[trigger] left[k], plugins, slot, wanted, now_ms)
                == Some(entry);
        assert(left.contains(left[k]));
        removals_keep_what_they_do_not_name(
            state,
            plugin_id,
            contribution_id,
            session_id,
            left[k],
        );
        let i = choose|i: int| 0 <= i < state.len() && state[i] == left[k];
        assert(entry_of(state[i], plugins, slot, wanted, now_ms) == Some(entry));
    }
    if slot_entries(state, plugins, slot, wanted, now_ms).contains(entry) && (entry.plugin_id
        != plugin_id || entry.contribution_id != contribution_id || (session_id is Some
        && entry.session_id != session_id)) {
        let k = choose|k: int|
            0 <= k < state.len() && entry_of(#[trigger] state[k], plugins, slot, wanted, now_ms)
                == Some(entry);
        assert(state.contains(state[k]));
        removals_keep_what_they_do_not_name(
            state,
            plugin_id,
            contribution_id,
            session_id,
            state[k],
        );
        let i = choose|i: int| 0 <= i < left.len() && left[i] == state[k];
        assert(entry_of(left[i], plugins, slot, wanted, now_ms) == Some(entry));
    }
}

/// State is shown in the slot for which its plugin, which takes part, declares
/// the contribution, with the contribution's title and priority, unless it has
/// expired or is of another session than the one wanted.
pub proof fn live_state_is_shown(
    state: Seq<StateModel>,
    plugins: Seq<LoadedPlugin>,
    slot: UiSlot,
    wanted: Option<Seq<char>>,
    now_ms: u64,
    i: int,
    at: int,
    k: int,
)
    requires
        0 <= i < state.len(),
        state[i].expires_at matches Some(t) ==> t > now_ms,
        wanted is Some && state[i].session is Some ==> state[i].session == wanted,
        0 <= at < plugins.len(),
        plugins[at].manifest.id@ == state[i].plugin_id,
        plugins[at].enabled,
        plugins[at].granted,
        forall|j: int|
            0 <= j < at ==> (#[trigger] plugins[j]).manifest.id@ != state[i].plugin_id,
        0 <= k < plugins[at].manifest.ui.len(),
        plugins[at].manifest.ui@[k].id@ == state[i].contribution_id,
        plugins[at].manifest.ui@[k].slot == slot,
        forall|j: int|
            0 <= j < k ==> !((#[trigger] plugins[at].manifest.ui@[j]).id@
                == state[i].contribution_id && plugins[at].manifest.ui@[j].slot == slot),
    ensures
        slot_entries(state, plugins, slot, wanted, now_ms).contains(
            (EntryModel {
                plugin_id: state[i].plugin_id,
                contribution_id: state[i].contribution_id,
                slot,
                title: plugins[at].manifest.ui@[k].title@,
                priority: plugins[at].manifest.ui@[k].priority,
                session_id: state[i].session,
                payload: state[i].payload,
            }),
        ),
{
    registry::lookups_find_the_first(plugins, state[i].plugin_id, at);
    first_in_slot(plugins[at].manifest.ui@, state[i].contribution_id, slot, k);
    let own = EntryModel {
        plugin_id: state[i].plugin_id,
        contribution_id: state[i].contribution_id,
        slot,
        title: plugins[at].manifest.ui@[k].title@,
        priority: plugins[at].manifest.ui@[k].priority,
        session_id: state[i].session,
        payload: state[i].payload,
    };
    assert(entry_of(state[i], plugins, slot, wanted, now_ms) == Some(own));
    entries_are_the_live_state(state, plugins, slot, wanted, now_ms, own);
}

/// Whatever a slot shows was pushed and has not expired, is of the session
/// wanted or of none, and belongs to a plugin that takes part and declares the
/// contribution for the slot under the title and the priority shown.
pub proof fn shown_entries_were_pushed(
    state: Seq<StateModel>,
    plugins: Seq<LoadedPlugin>,
    slot: UiSlot,
    wanted: Option<Seq<char>>,
    now_ms: u64,
    entry: EntryModel,
)
    requires
        slot_entries(state, plugins, slot, wanted, now_ms).contains(entry),
    ensures
        entry.slot == slot,
        wanted is Some && entry.session_id is Some ==> entry.session_id == wanted,
        exists|i: int|
            0 <= i < state.len() && (#[trigger] state[i]).plugin_id == entry.plugin_id
                && state[i].contribution_id == entry.contribution_id && state[i].session
                == entry.session_id && state[i].payload == entry.payload && (
            state[i].expires_at matches Some(t) ==> t > now_ms),
        exists|p: LoadedPlugin, c: UiContribution|
            #![trigger plugins.contains(p), p.manifest.ui@.contains(c)]
            plugins.contains(p) && p.manifest.id@ == entry.plugin_id && p.enabled && p.granted
                && p.manifest.ui@.contains(c) && c.id@ == entry.contribution_id && c.slot == slot
                && c.title@ == entry.title && c.priority == entry.priority,
{
    entries_are_the_live_state(state, plugins, slot, wanted, now_ms, entry);
    let i = choose|i: int|
        0 <= i < state.len() && entry_of(#[trigger] state[i], plugins, slot, wanted, now_ms)
            == Some(entry);
    let p = registry::find_active(plugins, state[i].plugin_id)->0;
    registry::found_plugins_are_known(plugins, state[i].plugin_id);
    found_in_slot(p.manifest.ui@, state[i].contribution_id, slot);
    let c = find_in_slot(p.manifest.ui@, state[i].contribution_id, slot)->0;
    assert(plugins.contains(p) && p.manifest.ui@.contains(c));
}

/// A slot shows the higher priority first; entries of one priority come by the
/// id of their plugin, those of one plugin by the id of their contribution.
pub proof fn entries_come_by_priority(
    state: Seq<StateModel>,
    plugins: Seq<LoadedPlugin>,
    slot: UiSlot,
    wanted: Option<Seq<char>>,
    now_ms: u64,
    i: int,
    j: int,
)
    requires
        0 <= i < j < slot_entries(state, plugins, slot, wanted, now_ms).len(),
    ensures
        ({
            let a = slot_entries(state, plugins, slot, wanted, now_ms)[i];
            let b = slot_entries(state, plugins, slot, wanted, now_ms)[j];
            ||| a.priority > b.priority
            ||| a.priority == b.priority && text::text_lt(a.plugin_id, b.plugin_id)
            ||| a.priority == b.priority && a.plugin_id == b.plugin_id && !text::text_lt(
                b.contribution_id,
                a.contribution_id,
            )
        }),
{
    let rows = live_entries(state, plugins, slot, wanted, now_ms);
    sorting::sorting_orders_rows::<UiEntry>(rows);
    let a = slot_entries(state, plugins, slot, wanted, now_ms)[i];
    let b = slot_entries(state, plugins, slot, wanted, now_ms)[j];
    assert(!sorting::key_lt(
        <UiEntry as Ranked>::key_of(b),
        <UiEntry as Ranked>::key_of(a),
    ));
    text::text_lt_total(a.plugin_id, b.plugin_id);
}

/// A slot shows one entry for each row that it shows, no more and no fewer.
pub proof fn slots_show_each_row_once(
    state: Seq<StateModel>,
    plugins: Seq<LoadedPlugin>,
    slot: UiSlot,
    wanted: Option<Seq<char>>,
    now_ms: u64,
    row: StateModel,
)
    ensures
        slot_entries(Seq::<StateModel>::empty(), plugins, slot, wanted, now_ms).len() == 0,
        slot_entries(state.push(row), plugins, slot, wanted, now_ms).len() == slot_entries(
            state,
            plugins,
            slot,
            wanted,
            now_ms,
        ).len() + slot_entries(seq![row], plugins, slot, wanted, now_ms).len(),
        slot_entries(seq![row], plugins, slot, wanted, now_ms).len() <= 1,
{
    reveal_with_fuel(live_entries, 2);
    let none = Seq::<StateModel>::empty();
    sorting::sorting_keeps_rows::<UiEntry>(live_entries(none, plugins, slot, wanted, now_ms));
    sorting::sorting_keeps_rows::<UiEntry>(live_entries(state, plugins, slot, wanted, now_ms));
    sorting::sorting_keeps_rows::<UiEntry>(
        live_entries(state.push(row), plugins, slot, wanted, now_ms),
    );
    sorting::sorting_keeps_rows::<UiEntry>(live_entries(seq![row], plugins, slot, wanted, now_ms));
    assert(state.push(row).drop_last() =~= state);
    assert(seq![row].drop_last() =~= none);
}

/// The snapshot lists the entries of all eight slots, one slot after another.
pub proof fn snapshots_list_every_slot(
    state: Seq<StateModel>,
    plugins: Seq<LoadedPlugin>,
    now_ms: u64,
)
    ensures
        entries_of_slots(state, plugins, slot_order(), now_ms) == slot_entries(
            state,
            plugins,
            UiSlot::StatusBarSegment,
            None,
            now_ms,
        ) + slot_entries(state, plugins, UiSlot::DashboardCard, None, now_ms) + slot_entries(
            state,
            plugins,
            UiSlot::SessionListRowBadge,
            None,
            now_ms,
        ) + slot_entries(state, plugins, UiSlot::SessionListColumn, None, now_ms) + slot_entries(
            state,
            plugins,
            UiSlot::SessionListSortKey,
            None,
            now_ms,
        ) + slot_entries(state, plugins, UiSlot::SessionListFilterFacet, None, now_ms)
            + slot_entries(state, plugins, UiSlot::SessionDetailHeaderBadge, None, now_ms)
            + slot_entries(state, plugins, UiSlot::SessionDetailPanel, None, now_ms),
{
    let s8 = slot_order();
    let s7 = s8.drop_last();
    let s6 = s7.drop_last();
    let s5 = s6.drop_last();
    let s4 = s5.drop_last();
    let s3 = s4.drop_last();
    let s2 = s3.drop_last();
    let s1 = s2.drop_last();
    let s0 = s1.drop_last();
    assert(s0 =~= Seq::<UiSlot>::empty());
    assert(entries_of_slots(state, plugins, s0, now_ms) =~= Seq::<EntryModel>::empty());
    assert(entries_of_slots(state, plugins, s1, now_ms) =~= slot_entries(
        state,
        plugins,
        UiSlot::StatusBarSegment,
        None,
        now_ms,
    ));
    assert(s2.last() == UiSlot::DashboardCard);
    assert(entries_of_slots(state, plugins, s2, now_ms) == entries_of_slots(
        state,
        plugins,
        s1,
        now_ms,
    ) + slot_entries(state, plugins, UiSlot::DashboardCard, None, now_ms));
    assert(s3.last() == UiSlot::SessionListRowBadge);
    assert(entries_of_slots(state, plugins, s3, now_ms) == entries_of_slots(
        state,
        plugins,
        s2,
        now_ms,
    ) + slot_entries(state, plugins, UiSlot::SessionListRowBadge, None, now_ms));
    assert(s4.last() == UiSlot::SessionListColumn);
    assert(entries_of_slots(state, plugins, s4, now_ms) == entries_of_slots(
        state,
        plugins,
        s3,
        now_ms,
    ) + slot_entries(state, plugins, UiSlot::SessionListColumn, None, now_ms));
    assert(s5.last() == UiSlot::SessionListSortKey);
    assert(entries_of_slots(state, plugins, s5, now_ms) == entries_of_slots(
        state,
        plugins,
        s4,
        now_ms,
    ) + slot_entries(state, plugins, UiSlot::SessionListSortKey, None, now_ms));
    assert(s6.last() == UiSlot::SessionListFilterFacet);
    assert(entries_of_slots(state, plugins, s6, now_ms) == entries_of_slots(
        state,
        plugins,
        s5,
        now_ms,
    ) + slot_entries(state, plugins, UiSlot::SessionListFilterFacet, None, now_ms));
    assert(s7.last() == UiSlot::SessionDetailHeaderBadge);
    assert(entries_of_slots(state, plugins, s7, now_ms) == entries_of_slots(
        state,
        plugins,
        s6,
        now_ms,
    ) + slot_entries(state, plugins, UiSlot::SessionDetailHeaderBadge, None, now_ms));
    assert(s8.last() == UiSlot::SessionDetailPanel);
    assert(entries_of_slots(state, plugins, s8, now_ms) == entries_of_slots(
        state,
        plugins,
        s7,
        now_ms,
    ) + slot_entries(state, plugins, UiSlot::SessionDetailPanel, None, now_ms));
}

/// A notification is taken exactly from a plugin that takes part, with a title
/// of one to two hundred characters and a body of at most two hundred.
pub proof fn notifications_are_capped(
    plugins: Seq<LoadedPlugin>,
    plugin_id: Seq<char>,
    title: Seq<char>,
    body: Seq<char>,
    at: int,
)
    ensures
        0 <= at < plugins.len() && plugins[at].manifest.id@ == plugin_id && (forall|j: int|
            0 <= j < at ==> (#[trigger] plugins[j]).manifest.id@ != plugin_id) ==> (
        notification_problem(plugins, plugin_id, title, body) is None <==> plugins[at].enabled
            && plugins[at].granted && 1 <= title.len() <= 200 && body.len() <= 200),
        (forall|j: int|
            0 <= j < plugins.len() ==> (#[trigger] plugins[j]).manifest.id@ != plugin_id)
            ==> notification_problem(plugins, plugin_id, title, body) is Some,
{
    if 0 <= at < plugins.len() && plugins[at].manifest.id@ == plugin_id && (forall|j: int|
        0 <= j < at ==> (#[trigger] plugins[j]).manifest.id@ != plugin_id) {
        registry::lookups_find_the_first(plugins, plugin_id, at);
    }
    if forall|j: int|
        0 <= j < plugins.len() ==> (#[trigger] plugins[j]).manifest.id@ != plugin_id {
        registry::unknown_plugins_are_not_found(plugins, plugin_id);
    }
}

/// A notification joins the ring and leaves the state alone; a ring of fifty
/// loses its oldest.
pub proof fn notifications_join_the_ring(store: StoreModel, note: NotificationModel)
    ensures
        ({
            let after = noted(store, note);
            &&& after.state == store.state
            &&& after.last_seq == note.seq
            &&& after.revision != store.revision
            &&& store.notifications.len() < 50 ==> after.notifications
                == store.notifications.push(note)
            &&& store.notifications.len() >= 50 ==> after.notifications
                == store.notifications.push(note).skip(1)
        }),
{
}

/// Each mutation counts the revision up by one, round the largest number.
pub proof fn revisions_count_up(revision: u64)
    ensures
        revision < u64::MAX ==> bumped(revision) == revision + 1,
        revision == u64::MAX ==> bumped(revision) == 0,
{
}

/// An eviction keeps exactly the state and the notifications of the plugins
/// named, the notifications in their order.
pub proof fn evictions_keep_the_named(
    state: Seq<StateModel>,
    notes: Seq<NotificationModel>,
    ids: Seq<Seq<char>>,
    row: StateModel,
    note: NotificationModel,
)
    ensures
        rows_of(state, ids).contains(row) <==> state.contains(row) && ids.contains(row.plugin_id),
        notes_of(notes, ids).contains(note) <==> notes.contains(note) && ids.contains(
            note.plugin_id,
        ),
        (forall|i: int, j: int|
            0 <= i < j < notes.len() ==> (#[trigger] notes[i]).seq < (#[trigger] notes[j]).seq)
            ==> (forall|i: int, j: int|
            0 <= i < j < notes_of(notes, ids).len() ==> (#[trigger] notes_of(notes, ids)[i]).seq < (
            #[trigger] notes_of(notes, ids)[j]).seq),
{
    let keep = |row: StateModel| ids.contains(row.plugin_id);
    let left = rows_of(state, ids);
    lists::filter_members(state, keep);
    if left.contains(row) {
        let k = choose|k: int| 0 <= k < left.len() && left[k] == row;
        state.lemma_filter_pred(keep, k);
        assert(state.contains(left[k]));
    }
    if state.contains(row) && keep(row) {
        let k = choose|k: int| 0 <= k < state.len() && state[k] == row;
        state.lemma_filter_contains(keep, k);
    }
    let keep_note = |n: NotificationModel| ids.contains(n.plugin_id);
    let stay = notes_of(notes, ids);
    lists::filter_members(notes, keep_note);
    if stay.contains(note) {
        let k = choose|k: int| 0 <= k < stay.len() && stay[k] == note;
        notes.lemma_filter_pred(keep_note, k);
        assert(notes.contains(stay[k]));
    }
    if notes.contains(note) && keep_note(note) {
        let k = choose|k: int| 0 <= k < notes.len() && notes[k] == note;
        notes.lemma_filter_contains(keep_note, k);
    }
    if forall|i: int, j: int|
        0 <= i < j < notes.len() ==> (#[trigger] notes[i]).seq < (#[trigger] notes[j]).seq {
        let rises = |a: NotificationModel, b: NotificationModel| a.seq < b.seq;
        assert forall|i: int, j: int| 0 <= i < j < notes.len() implies rises(
            #[trigger] notes[i],
            #[trigger] notes[j],
        ) by {}
        lists::filter_keeps_pairs(notes, keep_note, rises);
        assert forall|i: int, j: int| 0 <= i < j < stay.len() implies (#[trigger] stay[i]).seq < (
        #[trigger] stay[j]).seq by {
            assert(rises(stay[i], stay[j]));
        }
    }
}

proof fn declared_by_members(plugin_id: Seq<char>, ui: Seq<UiContribution>, slot: UiSlot)
    ensures
        forall|d: DeclaredModel| #[trigger]
            declared_by(plugin_id, ui, slot).contains(d) <==> d.plugin_id == plugin_id && exists|
                k: int,
            |
                0 <= k < ui.len() && (#[trigger] ui[k])@ == d.contribution && ui[k].slot == slot,
    decreases ui.len(),
{
    let out = declared_by(plugin_id, ui, slot);
    if ui.len() > 0 {
        let head = ui.drop_last();
        let before = declared_by(plugin_id, head, slot);
        declared_by_members(plugin_id, head, slot);
        assert forall|d: DeclaredModel| #[trigger] out.contains(d) <==> d.plugin_id == plugin_id
            && exists|k: int|
            0 <= k < ui.len() && (#[trigger] ui[k])@ == d.contribution && ui[k].slot == slot by {
            if out.contains(d) {
                let n = choose|n: int| 0 <= n < out.len() && out[n] == d;
                if n < before.len() {
                    assert(before[n] == d && before.contains(d));
                    let k = choose|k: int|
                        0 <= k < head.len() && (#[trigger] head[k])@ == d.contribution
                            && head[k].slot == slot;
                    assert(ui[k] == head[k]);
                } else {
                    assert(ui[ui.len() - 1]@ == d.contribution);
                }
            }
            if d.plugin_id == plugin_id && exists|k: int|
                0 <= k < ui.len() && (#[trigger] ui[k])@ == d.contribution && ui[k].slot == slot {
                let k = choose|k: int|
                    0 <= k < ui.len() && (#[trigger] ui[k])@ == d.contribution && ui[k].slot
                        == slot;
                if k < head.len() {
                    assert(head[k] == ui[k]);
                    assert(before.contains(d));
                    let n = choose|n: int| 0 <= n < before.len() && before[n] == d;
                    assert(out[n] == d);
                } else {
                    assert(out[out.len() - 1] == d);
                }
            }
        }
    }
}

proof fn declared_in_members(plugins: Seq<LoadedPlugin>, slot: UiSlot)
    ensures
        forall|d: DeclaredModel| #[trigger]
            declared_in(plugins, slot).contains(d) <==> exists|i: int, k: int|
                0 <= i < plugins.len() && plugins[i].enabled && plugins[i].granted
                    && plugins[i].manifest.id@ == d.plugin_id && 0 <= k
                    < plugins[i].manifest.ui.len() && (#[trigger] plugins[i].manifest.ui@[k])@
                    == d.contribution && plugins[i].manifest.ui@[k].slot == slot,
    decreases plugins.len(),
{
    let out = declared_in(plugins, slot);
    if plugins.len() > 0 {
        let head = plugins.drop_last();
        let before = declared_in(head, slot);
        let last = plugins.last();
        let own = declared_by(last.manifest.id@, last.manifest.ui@, slot);
        declared_in_members(head, slot);
        declared_by_members(last.manifest.id@, last.manifest.ui@, slot);
        assert forall|d: DeclaredModel| #[trigger] out.contains(d) <==> exists|i: int, k: int|
            0 <= i < plugins.len() && plugins[i].enabled && plugins[i].granted
                && plugins[i].manifest.id@ == d.plugin_id && 0 <= k < plugins[i].manifest.ui.len()
                && (#[trigger] plugins[i].manifest.ui@[k])@ == d.contribution
                && plugins[i].manifest.ui@[k].slot == slot by {
            if out.contains(d) {
                let n = choose|n: int| 0 <= n < out.len() && out[n] == d;
                if n < before.len() {
                    assert(before[n] == d && before.contains(d));
                    let (i, k) = choose|i: int, k: int|
                        0 <= i < head.len() && head[i].enabled && head[i].granted
                            && head[i].manifest.id@ == d.plugin_id && 0 <= k
                            < head[i].manifest.ui.len() && (#[trigger] head[i].manifest.ui@[k])@
                            == d.contribution && head[i].manifest.ui@[k].slot == slot;
                    assert(plugins[i].manifest.ui@[k]@ == d.contribution);
                } else {
                    assert(own[n - before.len()] == d && own.contains(d));
                    let k = choose|k: int|
                        0 <= k < last.manifest.ui.len() && (#[trigger] last.manifest.ui@[k])@
                            == d.contribution && last.manifest.ui@[k].slot == slot;
                    assert(plugins[plugins.len() - 1].manifest.ui@[k]@ == d.contribution);
                }
            }
            if exists|i: int, k: int|
                0 <= i < plugins.len() && plugins[i].enabled && plugins[i].granted
                    && plugins[i].manifest.id@ == d.plugin_id && 0 <= k
                    < plugins[i].manifest.ui.len() && (#[trigger] plugins[i].manifest.ui@[k])@
                    == d.contribution && plugins[i].manifest.ui@[k].slot == slot {
                let (i, k) = choose|i: int, k: int|
                    0 <= i < plugins.len() && plugins[i].enabled && plugins[i].granted
                        && plugins[i].manifest.id@ == d.plugin_id && 0 <= k
                        < plugins[i].manifest.ui.len() && (#[trigger] plugins[i].manifest.ui@[k])@
                        == d.contribution && plugins[i].manifest.ui@[k].slot == slot;
                if i < head.len() {
                    assert(head[i].manifest.ui@[k]@ == d.contribution);
                    assert(before.contains(d));
                    let n = choose|n: int| 0 <= n < before.len() && before[n] == d;
                    assert(out[n] == d);
                } else {
                    assert(last.manifest.ui@[k]@ == d.contribution);
                    assert(own.contains(d));
                    let n = choose|n: int| 0 <= n < own.len() && own[n] == d;
                    assert(out[before.len() + n] == d);
                }
            }
        }
    }
}

/// What is declared for a slot are the contributions for that slot of every
/// plugin that takes part, whether or not anything was pushed; they come by
/// priority, then by plugin and by contribution.
pub proof fn declarations_are_complete(
    plugins: Seq<LoadedPlugin>,
    slot: UiSlot,
    d: DeclaredModel,
    m: int,
    n: int,
)
    ensures
        ({
            let listed = sorting::stable_sorted::<(String, UiContribution)>(
                declared_in(plugins, slot),
            );
            &&& listed.contains(d) <==> exists|i: int, k: int|
                0 <= i < plugins.len() && plugins[i].enabled && plugins[i].granted
                    && plugins[i].manifest.id@ == d.plugin_id && 0 <= k
                    < plugins[i].manifest.ui.len() && (#[trigger] plugins[i].manifest.ui@[k])@
                    == d.contribution && plugins[i].manifest.ui@[k].slot == slot
            &&& 0 <= m < n < listed.len() ==> ({
                let a = listed[m];
                let b = listed[n];
                ||| a.contribution.priority > b.contribution.priority
                ||| a.contribution.priority == b.contribution.priority && text::text_lt(
                    a.plugin_id,
                    b.plugin_id,
                )
                ||| a.contribution.priority == b.contribution.priority && a.plugin_id
                    == b.plugin_id && !text::text_lt(b.contribution.id, a.contribution.id)
            })
        }),
{
    broadcast use vstd::seq_lib::group_to_multiset_ensures;

    let rows = declared_in(plugins, slot);
    let listed = sorting::stable_sorted::<(String, UiContribution)>(rows);
    declared_in_members(plugins, slot);
    sorting::sorting_keeps_rows::<(String, UiContribution)>(rows);
    sorting::sorting_orders_rows::<(String, UiContribution)>(rows);
    assert(listed.contains(d) <==> listed.to_multiset().count(d) > 0);
    assert(rows.contains(d) <==> rows.to_multiset().count(d) > 0);
    if 0 <= m < n < listed.len() {
        assert(!sorting::key_lt(
            <(String, UiContribution) as Ranked>::key_of(listed[n]),
            <(String, UiContribution) as Ranked>::key_of(listed[m]),
        ));
        text::text_lt_total(listed[m].plugin_id, listed[n].plugin_id);
    }
}

/// The entries of a session are exactly those that carry its id.
pub proof fn sessions_get_their_own_entries(
    entries: Seq<EntryModel>,
    session: Seq<char>,
    entry: EntryModel,
)
    ensures
        entries_of_session(entries, session).contains(entry) <==> entries.contains(entry)
            && entry.session_id == Some(session),
{
    let keep = |e: EntryModel| e.session_id == Some(session);
    let own = entries_of_session(entries, session);
    lists::filter_members(entries, keep);
    if own.contains(entry) {
        let k = choose|k: int| 0 <= k < own.len() && own[k] == entry;
        entries.lemma_filter_pred(keep, k);
        assert(entries.contains(own[k]));
    }
    if entries.contains(entry) && keep(entry) {
        let k = choose|k: int| 0 <= k < entries.len() && entries[k] == entry;
        entries.lemma_filter_contains(keep, k);
    }
}

/// A session has a number under a sort mode exactly where the mode's plugin
/// pushed one for it, and it is one that was pushed.
pub proof fn sort_keys_are_what_was_pushed(
    entries: Seq<EntryModel>,
    plugin_id: Seq<char>,
    contribution_id: Seq<char>,
    session: Seq<char>,
)
    ensures
        ({
            let map = sort_key_map(entries, plugin_id, contribution_id);
            &&& map.contains_key(session) <==> exists|i: int|
                0 <= i < entries.len() && (#[trigger] entries[i]).session_id == Some(session)
                    && entries[i].plugin_id == plugin_id && entries[i].contribution_id
                    == contribution_id && entries[i].payload is SortKey
            &&& map.contains_key(session) ==> exists|i: int|
                0 <= i < entries.len() && (#[trigger] entries[i]).session_id == Some(session)
                    && entries[i].plugin_id == plugin_id && entries[i].contribution_id
                    == contribution_id && entries[i].payload is SortKey
                    && entries[i].payload->SortKey_key == map[session]
        }),
    decreases entries.len(),
{
    if entries.len() > 0 {
        let head = entries.drop_last();
        let before = sort_key_map(head, plugin_id, contribution_id);
        let map = sort_key_map(entries, plugin_id, contribution_id);
        sort_keys_are_what_was_pushed(head, plugin_id, contribution_id, session);
        let last = entries[entries.len() - 1];
        let given = sort_key_of(last, plugin_id, contribution_id);
        if map.contains_key(session) && !(given is Some && (given->0).0 == session) {
            assert(before.contains_key(session) && before[session] == map[session]);
            let i = choose|i: int|
                0 <= i < head.len() && (#[trigger] head[i]).session_id == Some(session)
                    && head[i].plugin_id == plugin_id && head[i].contribution_id
                    == contribution_id && head[i].payload is SortKey
                    && head[i].payload->SortKey_key == before[session];
            assert(entries[i] == head[i]);
        }
        if exists|i: int|
            0 <= i < entries.len() && (#[trigger] entries[i]).session_id == Some(session)
                && entries[i].plugin_id == plugin_id && entries[i].contribution_id
                == contribution_id && entries[i].payload is SortKey {
            let i = choose|i: int|
                0 <= i < entries.len() && (#[trigger] entries[i]).session_id == Some(session)
                    && entries[i].plugin_id == plugin_id && entries[i].contribution_id
                    == contribution_id && entries[i].payload is SortKey;
            if i < head.len() {
                assert(head[i] == entries[i]);
            }
        }
    }
}

/// The facets of entries, one after another: an entry with facets gives its
/// values with a blank between them, any other entry gives nothing.
pub proof fn facets_come_entry_by_entry(a: Seq<EntryModel>, b: Seq<EntryModel>, entry: EntryModel)
    ensures
        facet_texts(a + b) == facet_texts(a) + facet_texts(b),
        entry.payload matches PayloadModel::Facets { values } ==> facet_texts(seq![entry]) == seq![
            text::joined(values, " "@),
        ],
        !(entry.payload is Facets) ==> facet_texts(seq![entry]) == Seq::<Seq<char>>::empty(),
    decreases b.len(),
{
    reveal_with_fuel(facet_texts, 2);
    assert(seq![entry].drop_last() =~= Seq::<EntryModel>::empty());
    if entry.payload is Facets {
        assert(facet_texts(seq![entry]) =~= seq![
            text::joined(entry.payload->values, " "@),
        ]);
    }
    if b.len() == 0 {
        assert(a + b =~= a);
        assert(facet_texts(a) + facet_texts(b) =~= facet_texts(a));
    } else {
        assert((a + b).drop_last() =~= a + b.drop_last());
        facets_come_entry_by_entry(a, b.drop_last(), entry);
        assert(facet_texts(a + b) =~= facet_texts(a) + facet_texts(b));
    }
}

/// Whoever types a facet value of a session finds the session: each value of
/// each entry stands in the searchable text.
pub proof fn facet_values_are_searchable(entries: Seq<EntryModel>, i: int, k: int)
    requires
        0 <= i < entries.len(),
        entries[i].payload is Facets,
        0 <= k < entries[i].payload->values.len(),
    ensures
        ({
            let haystack = text::joined(facet_texts(entries), " "@);
            let value = entries[i].payload->values[k];
            exists|at: int|
                0 <= at <= haystack.len() - value.len() && #[trigger] haystack.subrange(
                    at,
                    at + value.len(),
                ) == value
        }),
{
    let values = entries[i].payload->values;
    let part = text::joined(values, " "@);
    let value = values[k];
    let all = facet_texts(entries);
    let haystack = text::joined(all, " "@);
    facet_texts_place(entries, i);
    let n = choose|n: int| 0 <= n < all.len() && #[trigger] all[n] == part;
    text::joined_parts_are_found(all, " "@, n);
    text::joined_parts_are_found(values, " "@, k);
    let outer = choose|at: int|
        0 <= at <= haystack.len() - all[n].len() && #[trigger] haystack.subrange(
            at,
            at + all[n].len(),
        ) == all[n];
    let inner = choose|at: int|
        0 <= at <= part.len() - values[k].len() && #[trigger] part.subrange(
            at,
            at + values[k].len(),
        ) == values[k];
    let at = outer + inner;
    assert(haystack.subrange(at, at + value.len()) =~= part.subrange(inner, inner + value.len()))
        by {
        let whole = haystack.subrange(outer, outer + part.len());
        assert(whole == part);
        assert forall|j: int| 0 <= j < value.len() implies #[trigger] haystack.subrange(
            at,
            at + value.len(),
        )[j] == part.subrange(inner, inner + value.len())[j] by {
            assert(whole[inner + j] == haystack[outer + inner + j]);
        }
    }
}

proof fn facet_texts_place(entries: Seq<EntryModel>, i: int)
    requires
        0 <= i < entries.len(),
        entries[i].payload is Facets,
    ensures
        exists|n: int|
            0 <= n < facet_texts(entries).len() && #[trigger] facet_texts(entries)[n]
                == text::joined(entries[i].payload->values, " "@),
    decreases entries.len(),
{
    let head = entries.drop_last();
    if i < head.len() {
        facet_texts_place(head, i);
        let n = choose|n: int|
            0 <= n < facet_texts(head).len() && #[trigger] facet_texts(head)[n] == text::joined(
                head[i].payload->values,
                " "@,
            );
        assert(facet_texts(entries)[n] == facet_texts(head)[n]);
    } else {
        assert(facet_texts(entries)[facet_texts(entries).len() - 1] == text::joined(
            entries[i].payload->values,
            " "@,
        ));
    }
}

/// What is declared for a slot comes plugin by plugin and, within a manifest,
/// contribution by contribution: a contribution of a plugin that takes part is
/// declared once where it is for the slot, and not at all where it is not.
pub proof fn declarations_come_one_by_one(
    plugins: Seq<LoadedPlugin>,
    plugin: LoadedPlugin,
    slot: UiSlot,
    plugin_id: Seq<char>,
    ui: Seq<UiContribution>,
    given: UiContribution,
)
    ensures
        declared_in(plugins.push(plugin), slot) == declared_in(plugins, slot) + (if plugin.enabled
            && plugin.granted {
            declared_by(plugin.manifest.id@, plugin.manifest.ui@, slot)
        } else {
            Seq::empty()
        }),
        declared_by(plugin_id, ui.push(given), slot) == declared_by(plugin_id, ui, slot) + (
        if given.slot == slot {
            seq![DeclaredModel { plugin_id, contribution: given@ }]
        } else {
            Seq::empty()
        }),
        declared_in(Seq::empty(), slot).len() == 0,
        declared_by(plugin_id, Seq::empty(), slot).len() == 0,
{
    assert(plugins.push(plugin).drop_last() =~= plugins);
    assert(ui.push(given).drop_last() =~= ui);
}

/// A block that is too large is told so, by its kind; of several blocks the
/// first one refused decides.
pub proof fn large_blocks_are_named(
    blocks: Seq<BlockModel>,
    block: BlockModel,
)
    ensures
        block_problem(block) matches Some(problem) ==> ({
            &&& block is Text ==> problem == "block text longer than 200 chars"@
            &&& block is Kv ==> problem == "kv block too large"@
            &&& block is List ==> problem == "list block too large"@
            &&& block is Metric ==> problem == "metric block too large"@
        }),
        blocks_problem(Seq::empty()) is None,
        blocks_problem(blocks.push(block)) == (if blocks_problem(blocks) is Some {
            blocks_problem(blocks)
        } else {
            block_problem(block)
        }),
    decreases blocks.len(),
{
    let all = blocks.push(block);
    assert(all[0] == (if blocks.len() == 0 {
        block
    } else {
        blocks[0]
    }));
    if blocks.len() == 0 {
        assert(all.drop_first() =~= Seq::empty());
        assert(blocks =~= Seq::empty());
    } else {
        assert(all.drop_first() =~= blocks.drop_first().push(block));
        large_blocks_are_named(blocks.drop_first(), block);
    }
}

/// A payload that is refused for its size or its number is told so, by its
/// kind.
pub proof fn large_payloads_are_named(payload: PayloadModel, slot: UiSlot)
    ensures
        !fits_slot(payload, slot) ==> payload_problem(payload, slot) == Some(
            "payload kind does not match slot "@ + manifest::slot_name(slot),
        ),
        fits_slot(payload, slot) ==> (payload_problem(payload, slot) matches Some(problem) ==> {
            &&& payload is Badge ==> problem == "badge text/tooltip longer than 200 chars"@
            &&& payload is Cell ==> problem == "cell text longer than 200 chars"@
            &&& payload is Facets ==> problem == "at most 8 facets of 200 chars"@
            &&& payload matches PayloadModel::SortKey { key, .. } ==> problem == (if finite_bits(
                key.bits,
            ) {
                "sort reason longer than 200 chars"@
            } else {
                "sort key must be finite"@
            })
            &&& payload matches PayloadModel::Blocks { blocks, .. } ==> (blocks.len() > 32
                ==> problem == "at most 32 blocks"@) && (blocks.len() <= 32 ==> blocks_problem(
                blocks,
            ) == Some(problem))
        }),
{
}

/// A refused push is told why: that its plugin does not take part, else that
/// the contribution is not declared, else what is wrong with the payload, else
/// with the scope.
pub proof fn refused_pushes_are_explained(
    plugins: Seq<LoadedPlugin>,
    plugin_id: Seq<char>,
    contribution_id: Seq<char>,
    session_id: Option<Seq<char>>,
    payload: PayloadModel,
)
    ensures
        ({
            let problem = push_problem(plugins, plugin_id, contribution_id, session_id, payload);
            let active = registry::find_active(plugins, plugin_id) is Some;
            let declared = declared_contribution(plugins, plugin_id, contribution_id);
            let slot = declared->0.slot;
            let shared = slot == UiSlot::StatusBarSegment || slot == UiSlot::DashboardCard;
            &&& !active ==> problem == Some("plugin "@ + plugin_id + " is not active"@)
            &&& !active ==> contribution_problem(plugins, plugin_id, contribution_id) == problem
            &&& active && declared is None ==> problem == Some(
                "plugin "@ + plugin_id + (" declares no ui contribution "@ + text::debug_text(
                    contribution_id,
                )),
            )
            &&& active && declared is None ==> contribution_problem(
                plugins,
                plugin_id,
                contribution_id,
            ) == problem
            &&& active && declared is Some && payload_problem(payload, slot) is Some ==> problem
                == payload_problem(payload, slot)
            &&& active && declared is Some && payload_problem(payload, slot) is None && shared
                && session_id is Some ==> problem == Some(
                "slot "@ + manifest::slot_name(slot) + " is global; drop session_id"@,
            )
            &&& active && declared is Some && payload_problem(payload, slot) is None && !shared
                && session_id is None ==> problem == Some(
                "slot "@ + manifest::slot_name(slot) + " needs a session_id"@,
            )
        }),
{
}

/// A refused notification is told why: that its plugin does not take part, or
/// how long its texts may be.
pub proof fn refused_notifications_are_explained(
    plugins: Seq<LoadedPlugin>,
    plugin_id: Seq<char>,
    title: Seq<char>,
    body: Seq<char>,
)
    ensures
        notification_problem(plugins, plugin_id, title, body) matches Some(problem) ==> ({
            &&& registry::find_active(plugins, plugin_id) is None ==> problem == "plugin "@
                + plugin_id + " is not active"@
            &&& registry::find_active(plugins, plugin_id) is Some ==> problem
                == "notification title must be 1..=200 chars, body <= 200"@
        }),
{
}

/// What contracts say of payloads are all their parts, in order.
pub proof fn payload_models_are_faithful(
    text: String,
    more: String,
    severity: Severity,
    items: Vec<String>,
    pairs: Vec<(String, String)>,
    blocks: Vec<Block>,
    key: FloatBits,
    sort_key: Option<FloatBits>,
    i: int,
)
    ensures
        (Block::Text { text, severity })@ == (BlockModel::Text { text: text@, severity }),
        (Block::Kv { items: pairs })@ matches BlockModel::Kv { items: shown } && shown.len()
            == pairs.len() && (0 <= i < pairs.len() ==> shown[i].0 == pairs@[i].0@ && shown[i].1
            == pairs@[i].1@),
        (Block::List { items })@ == (BlockModel::List { items: text::texts(items@) }),
        (Block::Metric { label: text, value: more })@ == (BlockModel::Metric {
            label: text@,
            value: more@,
        }),
        (UiPayload::Badge { text, severity, tooltip: more })@ == (PayloadModel::Badge {
            text: text@,
            severity,
            tooltip: more@,
        }),
        (UiPayload::Cell { text, severity, sort_key })@ == (PayloadModel::Cell {
            text: text@,
            severity,
            sort_key,
        }),
        (UiPayload::SortKey { key, reason: more })@ == (PayloadModel::SortKey {
            key,
            reason: more@,
        }),
        (UiPayload::Facets { values: items })@ == (PayloadModel::Facets {
            values: text::texts(items@),
        }),
        (UiPayload::Blocks { severity, blocks })@ matches PayloadModel::Blocks {
            severity: tint,
            blocks: shown,
        } && tint == severity && shown.len() == blocks.len() && (0 <= i < blocks.len() ==> shown[i]
            == blocks@[i]@),
{
}

/// What contracts say of entries and of notifications are all their parts, in
/// order.
pub proof fn entry_models_are_faithful(
    entries: Seq<UiEntry>,
    notes: Seq<Notification>,
    i: int,
    id: String,
)
    ensures
        entry_models(entries).len() == entries.len(),
        0 <= i < entries.len() ==> ({
            let model = entry_models(entries)[i];
            let entry = entries[i];
            &&& model.plugin_id == entry.plugin_id@
            &&& model.contribution_id == entry.contribution_id@
            &&& model.slot == entry.slot
            &&& model.title == entry.title@
            &&& model.priority == entry.priority
            &&& model.session_id == text::optional_text(entry.session_id)
            &&& model.payload == entry.payload@
        }),
        notification_models(notes).len() == notes.len(),
        0 <= i < notes.len() ==> ({
            let model = notification_models(notes)[i];
            let note = notes[i];
            &&& model.plugin_id == note.plugin_id@
            &&& model.title == note.title@
            &&& model.body == note.body@
            &&& model.severity == note.severity
            &&& model.session_id == text::optional_text(note.session_id)
            &&& model.seq == note.seq
        }),
        UiScope::Global@ is None,
        UiScope::Session(id)@ == Some(id@),
{
}

/// What a removal or an eviction leaves, and what a session gets, keeps its
/// order: one more piece of state, notification or entry comes last where it
/// stays, and changes nothing where it goes.
pub proof fn what_stays_keeps_its_order(
    state: Seq<StateModel>,
    row: StateModel,
    notes: Seq<NotificationModel>,
    note: NotificationModel,
    entries: Seq<EntryModel>,
    entry: EntryModel,
    ids: Seq<Seq<char>>,
    id: Seq<char>,
    contribution_id: Seq<char>,
    session_id: Option<Seq<char>>,
    session: Seq<char>,
)
    ensures
        after_removal(state.push(row), id, contribution_id, session_id) == (if row.plugin_id == id
            && row.contribution_id == contribution_id && (session_id is None || row.session
            == session_id) {
            after_removal(state, id, contribution_id, session_id)
        } else {
            after_removal(state, id, contribution_id, session_id).push(row)
        }),
        rows_of(state.push(row), ids) == (if ids.contains(row.plugin_id) {
            rows_of(state, ids).push(row)
        } else {
            rows_of(state, ids)
        }),
        notes_of(notes.push(note), ids) == (if ids.contains(note.plugin_id) {
            notes_of(notes, ids).push(note)
        } else {
            notes_of(notes, ids)
        }),
        entries_of_session(entries.push(entry), session) == (if entry.session_id == Some(session) {
            entries_of_session(entries, session).push(entry)
        } else {
            entries_of_session(entries, session)
        }),
        after_removal(Seq::empty(), id, contribution_id, session_id).len() == 0,
        rows_of(Seq::empty(), ids).len() == 0,
        notes_of(Seq::empty(), ids).len() == 0,
        entries_of_session(Seq::empty(), session).len() == 0,
{
    reveal(Seq::filter);
    assert(state.push(row).drop_last() =~= state);
    assert(notes.push(note).drop_last() =~= notes);
    assert(entries.push(entry).drop_last() =~= entries);
}

/// Entries of equal rank come in the order of the state: one more piece of state
/// gives its entry last, or none.
pub proof fn entries_come_in_the_order_of_the_state(
    state: Seq<StateModel>,
    row: StateModel,
    plugins: Seq<LoadedPlugin>,
    slot: UiSlot,
    wanted: Option<Seq<char>>,
    now_ms: u64,
)
    ensures
        live_entries(state.push(row), plugins, slot, wanted, now_ms) == live_entries(
            state,
            plugins,
            slot,
            wanted,
            now_ms,
        ) + live_entries(seq![row], plugins, slot, wanted, now_ms),
        live_entries(seq![row], plugins, slot, wanted, now_ms).len() <= 1,
        live_entries(Seq::empty(), plugins, slot, wanted, now_ms).len() == 0,
        slot_entries(state, plugins, slot, wanted, now_ms) == sorting::stable_sorted::<UiEntry>(
            live_entries(state, plugins, slot, wanted, now_ms),
        ),
{
    reveal_with_fuel(live_entries, 2);
    assert(state.push(row).drop_last() =~= state);
    assert(seq![row].drop_last() =~= Seq::empty());
    assert(live_entries(state.push(row), plugins, slot, wanted, now_ms) =~= live_entries(
        state,
        plugins,
        slot,
        wanted,
        now_ms,
    ) + live_entries(seq![row], plugins, slot, wanted, now_ms));
}

} // verus!
