//! Dialogs: what they hold, how keys and clicks change them, what they show.

use vstd::prelude::*;

use crate::plugin::ui::Severity;

pub mod plugin_panels;
pub mod sort_picker;

verus! {

/// A key that a dialog gets.
#[derive(Debug, Clone, Copy, PartialEq, Eq, Structural)]
pub enum Key {
    Esc,
    Enter,
    Up,
    Down,
    Char(char),
    /// Any other key.
    Other,
}

/// What a key or a click does to a dialog.
#[derive(Debug)]
pub enum DialogResult<T> {
    /// It stays open.
    Continue,
    /// It is closed without a choice.
    Cancel,
    /// It is closed with a choice.
    Submit(T),
}

/// A part of the screen.
#[derive(Debug, Clone, Copy, PartialEq, Eq, Structural)]
pub struct Rect {
    pub x: u16,
    pub y: u16,
    pub width: u16,
    pub height: u16,
}

impl Default for Rect {
    fn default() -> (r: Self)
        ensures
            r == (Rect { x: 0, y: 0, width: 0, height: 0 }),
    {
        Rect { x: 0, y: 0, width: 0, height: 0 }
    }
}

/// The smaller of two numbers.
pub open spec fn least(a: int, b: int) -> int {
    if a < b {
        a
    } else {
        b
    }
}

/// The column behind the last one of a part of the screen.
pub open spec fn right_of(area: Rect) -> int {
    least(area.x + area.width, u16::MAX as int)
}

/// The row below the last one of a part of the screen.
pub open spec fn bottom_of(area: Rect) -> int {
    least(area.y + area.height, u16::MAX as int)
}

/// Whether a cell is in a part of the screen.
pub open spec fn holds_cell(area: Rect, col: u16, row: u16) -> bool {
    area.x <= col < right_of(area) && area.y <= row < bottom_of(area)
}

impl Rect {
    /// Whether a cell is in this part of the screen.
    pub fn contains(&self, col: u16, row: u16) -> (r: bool)
        ensures
            r == holds_cell(*self, col, row),
    {
        let right: u32 = self.x as u32 + self.width as u32;
        let bottom: u32 = self.y as u32 + self.height as u32;
        self.x <= col && (col as u32) < right && col < u16::MAX && self.y <= row && (row as u32)
            < bottom && row < u16::MAX
    }
}

/// The part in the middle of an area, no larger than the area.
pub open spec fn centered(area: Rect, width: u16, height: u16) -> Rect {
    let w = least(width as int, area.width as int);
    let h = least(height as int, area.height as int);
    Rect {
        x: (area.x + (area.width - w) / 2) as u16,
        y: (area.y + (area.height - h) / 2) as u16,
        width: w as u16,
        height: h as u16,
    }
}

/// Center a dialog of a size in an area.
pub fn centered_rect(area: Rect, width: u16, height: u16) -> (r: Rect)
    requires
        area.x + area.width <= u16::MAX,
        area.y + area.height <= u16::MAX,
    ensures
        r == centered(area, width, height),
{
    let w = if width < area.width {
        width
    } else {
        area.width
    };
    let h = if height < area.height {
        height
    } else {
        area.height
    };
    Rect {
        x: area.x + (area.width - w) / 2,
        y: area.y + (area.height - h) / 2,
        width: w,
        height: h,
    }
}

/// `n` less one, but not below zero.
pub open spec fn less_one(n: int) -> int {
    if n > 0 {
        n - 1
    } else {
        0
    }
}

/// What is left of an area inside a border on all sides.
pub open spec fn inside_border(area: Rect) -> Rect {
    Rect {
        x: least(least(area.x + 1, u16::MAX as int), right_of(area)) as u16,
        y: least(least(area.y + 1, u16::MAX as int), bottom_of(area)) as u16,
        width: less_one(less_one(area.width as int)) as u16,
        height: less_one(less_one(area.height as int)) as u16,
    }
}

/// `ratatui::widgets::Block::inner` of a block with all borders: one cell
/// less on each side, as far as the area has them.
#[verifier::external_body]
fn bordered_inner(area: Rect) -> (r: Rect)
    ensures
        r == inside_border(area),
{
    let Rect { x, y, width, height } = area;
    let inner = ratatui::widgets::Block::default().borders(
        ratatui::widgets::Borders::ALL,
    ).inner(ratatui::layout::Rect { x, y, width, height });
    Rect { x: inner.x, y: inner.y, width: inner.width, height: inner.height }
}

/// The parts, as columns, rows, widths and heights, that the layout solver of
/// `ratatui` gives an area: within a margin, a part of at least some rows
/// above one of a fixed number of rows.
pub uninterp spec fn layout_parts(
    x: u16,
    y: u16,
    width: u16,
    height: u16,
    margin: u16,
    min: u16,
    length: u16,
) -> Seq<(u16, u16, u16, u16)>;

/// A part as numbers.
pub open spec fn rect_numbers(parts: Seq<Rect>) -> Seq<(u16, u16, u16, u16)> {
    parts.map_values(|r: Rect| (r.x, r.y, r.width, r.height))
}

/// `ratatui::layout::Layout::split` of an area, vertically, with a margin and
/// the constraints `Min` and `Length`. There is one part per constraint; the
/// contract names the parts.
#[verifier::external_body]
fn split_vertically(area: Rect, margin: u16, min: u16, length: u16) -> (r: Vec<Rect>)
    ensures
        rect_numbers(r@) == layout_parts(
            area.x,
            area.y,
            area.width,
            area.height,
            margin,
            min,
            length,
        ),
        r.len() == 2,
{
    let Rect { x, y, width, height } = area;
    let rows = [
        ratatui::layout::Constraint::Min(min),
        ratatui::layout::Constraint::Length(length),
    ];
    let layout = ratatui::layout::Layout::vertical(rows).margin(margin);
    let parts = layout.split(ratatui::layout::Rect { x, y, width, height });
    parts.iter().map(|r| Rect { x: r.x, y: r.y, width: r.width, height: r.height }).collect()
}

/// How a piece of text looks, by what the theme has a color for.
#[derive(Debug, Clone, Copy, PartialEq, Eq, Structural)]
pub enum Tone {
    /// No style.
    Plain,
    Text,
    Dimmed,
    Hint,
    Running,
    AccentBold,
    TitleBold,
    Tint(Severity),
    TintBold(Severity),
}

/// A piece of text in one style.
#[derive(Debug)]
pub struct StyledSpan {
    pub text: String,
    pub tone: Tone,
}

/// What contracts say of a piece of text.
pub struct SpanModel {
    pub text: Seq<char>,
    pub tone: Tone,
}

impl View for StyledSpan {
    type V = SpanModel;

    open spec fn view(&self) -> SpanModel {
        SpanModel { text: self.text@, tone: self.tone }
    }
}

/// A line; without pieces it is empty.
#[derive(Debug)]
pub struct StyledLine {
    pub spans: Vec<StyledSpan>,
}

impl View for StyledLine {
    type V = Seq<SpanModel>;

    open spec fn view(&self) -> Seq<SpanModel> {
        self.spans@.map_values(|s: StyledSpan| s@)
    }
}

/// The models of some lines.
pub open spec fn line_models(lines: Seq<StyledLine>) -> Seq<Seq<SpanModel>> {
    lines.map_values(|l: StyledLine| l@)
}

/// A piece of text.
pub open spec fn span(text: Seq<char>, tone: Tone) -> SpanModel {
    SpanModel { text, tone }
}

/// Make a piece of text.
pub fn styled(text: String, tone: Tone) -> (r: StyledSpan)
    ensures
        r@ == span(text@, tone),
{
    StyledSpan { text, tone }
}

/// An empty line.
pub fn empty_line() -> (r: StyledLine)
    ensures
        r@ == Seq::<SpanModel>::empty(),
{
    let r = StyledLine { spans: Vec::new() };
    assert(r@ =~= Seq::empty());
    r
}

/// A line of one piece.
pub fn line_of(one: StyledSpan) -> (r: StyledLine)
    ensures
        r@ == seq![one@],
{
    let r = StyledLine { spans: vec![one] };
    assert(r@ =~= seq![one@]);
    r
}

/// A line of two pieces.
pub fn line_of_two(one: StyledSpan, two: StyledSpan) -> (r: StyledLine)
    ensures
        r@ == seq![one@, two@],
{
    let r = StyledLine { spans: vec![one, two] };
    assert(r@ =~= seq![one@, two@]);
    r
}

/// Add a line.
pub fn add_line(lines: &mut Vec<StyledLine>, line: StyledLine)
    ensures
        line_models(final(lines)@) == line_models(old(lines)@).push(line@),
{
    let ghost before = line_models(lines@);
    let ghost model = line@;
    lines.push(line);
    assert(line_models(lines@) =~= before.push(model));
}

/// Add a piece to a line.
pub fn add_span(line: &mut StyledLine, more: StyledSpan)
    ensures
        final(line)@ == old(line)@.push(more@),
{
    let ghost before = line@;
    let ghost model = more@;
    line.spans.push(more);
    assert(line@ =~= before.push(model));
}

/// A cell is in an area exactly where its column and its row are, the last
/// column and the last row that numbers reach being in none.
pub proof fn areas_hold_their_cells(area: Rect, col: u16, row: u16)
    ensures
        holds_cell(area, col, row) <==> area.x <= col && col < area.x + area.width && col < 65535
            && area.y <= row && row < area.y + area.height && row < 65535,
{
}

/// A dialog stands in the middle of its area and never leaves it: it has the
/// size that was asked for as far as the area has room, and what is left over
/// is shared between the two sides, the far side getting the odd cell.
pub proof fn dialogs_stand_in_the_middle(area: Rect, width: u16, height: u16)
    requires
        area.x + area.width <= u16::MAX,
        area.y + area.height <= u16::MAX,
    ensures
        ({
            let r = centered(area, width, height);
            let left = r.x - area.x;
            let right = (area.x + area.width) - (r.x + r.width);
            let above = r.y - area.y;
            let below = (area.y + area.height) - (r.y + r.height);
            &&& width <= area.width ==> r.width == width
            &&& width > area.width ==> r.width == area.width
            &&& height <= area.height ==> r.height == height
            &&& height > area.height ==> r.height == area.height
            &&& 0 <= left <= right <= left + 1
            &&& 0 <= above <= below <= above + 1
        }),
{
}

/// A border takes one cell on each side of an area, as far as the area has
/// them.
pub proof fn borders_take_one_cell(area: Rect)
    requires
        area.x + area.width <= u16::MAX,
        area.y + area.height <= u16::MAX,
    ensures
        ({
            let inner = inside_border(area);
            &&& inner.x == area.x + (if area.width > 0 {
                1int
            } else {
                0
            })
            &&& inner.y == area.y + (if area.height > 0 {
                1int
            } else {
                0
            })
            &&& area.width >= 2 ==> inner.width == area.width - 2
            &&& area.width < 2 ==> inner.width == 0
            &&& area.height >= 2 ==> inner.height == area.height - 2
            &&& area.height < 2 ==> inner.height == 0
        }),
{
}

/// What contracts say of lines are all their pieces, in order, each with its
/// text and its tone.
pub proof fn line_models_are_faithful(lines: Seq<StyledLine>, i: int, k: int)
    ensures
        line_models(lines).len() == lines.len(),
        0 <= i < lines.len() ==> line_models(lines)[i].len() == lines[i].spans.len(),
        0 <= i < lines.len() && 0 <= k < lines[i].spans.len() ==> line_models(lines)[i][k].text
            == lines[i].spans@[k].text@ && line_models(lines)[i][k].tone == lines[i].spans@[k].tone,
{
}

/// What contracts say of the parts of a layout are their places and sizes, in
/// order.
pub proof fn part_models_are_faithful(parts: Seq<Rect>, i: int)
    ensures
        rect_numbers(parts).len() == parts.len(),
        0 <= i < parts.len() ==> rect_numbers(parts)[i] == (
            parts[i].x,
            parts[i].y,
            parts[i].width,
            parts[i].height,
        ),
{
}

} // verus!
