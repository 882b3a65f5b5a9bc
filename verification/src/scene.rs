//! What is drawn, as plain values: styled text and the areas it goes to.

use ratatui::layout;
use ratatui::widgets::{Block, Borders, Padding};
use vstd::prelude::*;

use crate::text::Text;

verus! {

/// The colors in use.
#[derive(Debug, Clone, Copy, PartialEq, Eq, Structural)]
pub enum Color {
    Black,
    Blue,
    DarkGray,
    Gray,
    Green,
    Red,
    Yellow,
}

/// How text looks: its colors, where they are set, and its weight.
#[derive(Debug, Clone, Copy, PartialEq, Eq, Structural)]
pub struct Style {
    pub fg: Option<Color>,
    pub bg: Option<Color>,
    pub bold: bool,
    pub dim: bool,
}

/// The look of text of which nothing is said.
pub open spec fn plain_style() -> Style {
    Style { fg: None, bg: None, bold: false, dim: false }
}

/// Bold text.
pub open spec fn bold_style() -> Style {
    Style { fg: None, bg: None, bold: true, dim: false }
}

/// Text in the given color.
pub open spec fn color_style(color: Color) -> Style {
    Style { fg: Some(color), bg: None, bold: false, dim: false }
}

/// Bold text in the given color.
pub open spec fn bold_color_style(color: Color) -> Style {
    Style { fg: Some(color), bg: None, bold: true, dim: false }
}

/// The look of text of which nothing is said.
pub fn plain() -> (r: Style)
    ensures
        r == plain_style(),
{
    Style { fg: None, bg: None, bold: false, dim: false }
}

/// Bold text.
pub fn bold() -> (r: Style)
    ensures
        r == bold_style(),
{
    Style { fg: None, bg: None, bold: true, dim: false }
}

/// Text in the given color.
pub fn colored(color: Color) -> (r: Style)
    ensures
        r == color_style(color),
{
    Style { fg: Some(color), bg: None, bold: false, dim: false }
}

/// Bold text in the given color.
pub fn bold_colored(color: Color) -> (r: Style)
    ensures
        r == bold_color_style(color),
{
    Style { fg: Some(color), bg: None, bold: true, dim: false }
}

/// A piece of text of one style.
#[derive(Debug)]
pub struct Span {
    pub text: String,
    pub style: Style,
}

/// What a span holds.
pub struct SpanView {
    pub text: Text,
    pub style: Style,
}

impl View for Span {
    type V = SpanView;

    open spec fn view(&self) -> SpanView {
        SpanView { text: self.text@, style: self.style }
    }
}

impl Clone for Span {
    fn clone(&self) -> (r: Self)
        ensures
            r == *self,
    {
        Span { text: self.text.clone(), style: self.style }
    }
}

/// What each span of a line holds.
pub open spec fn span_views(spans: Seq<Span>) -> Seq<SpanView> {
    spans.map_values(|span: Span| span@)
}

/// What each line of a list of items holds.
pub open spec fn item_views(items: Seq<Vec<Span>>) -> Seq<Seq<SpanView>> {
    items.map_values(|item: Vec<Span>| span_views(item@))
}

/// A copy of the lines of a list of items.
pub fn clone_items(items: &Vec<Vec<Span>>) -> (r: Vec<Vec<Span>>)
    ensures
        item_views(r@) == item_views(items@),
{
    let mut out: Vec<Vec<Span>> = Vec::new();
    for i in 0..items.len()
        invariant
            item_views(out@) == item_views(items@).take(i as int),
    {
        let ghost before = item_views(out@);
        let item = items[i].clone();
        assert(span_views(item@) =~= span_views(items@[i as int]@));
        out.push(item);
        assert(item_views(out@) =~= before.push(span_views(items@[i as int]@)));
        assert(item_views(items@).take(i + 1) =~= item_views(items@).take(i as int).push(
            item_views(items@)[i as int],
        ));
    }
    assert(item_views(items@).take(items@.len() as int) =~= item_views(items@));
    out
}

/// A line of text: of one style throughout, or made of spans.
#[derive(Debug)]
pub enum TextLine {
    Styled(Span),
    Spans(Vec<Span>),
}

/// What a line of text holds.
pub enum TextLineView {
    Styled(SpanView),
    Spans(Seq<SpanView>),
}

impl View for TextLine {
    type V = TextLineView;

    open spec fn view(&self) -> TextLineView {
        match self {
            TextLine::Styled(span) => TextLineView::Styled(span@),
            TextLine::Spans(spans) => TextLineView::Spans(span_views(spans@)),
        }
    }
}

/// What each line of a text holds.
pub open spec fn line_views(lines: Seq<TextLine>) -> Seq<TextLineView> {
    lines.map_values(|line: TextLine| line@)
}

/// The text of a paragraph: a string with its own line breaks, or lines.
#[derive(Debug)]
pub enum Content {
    Raw(String),
    Lines(Vec<TextLine>),
}

/// What the text of a paragraph holds.
pub enum ContentView {
    Raw(Text),
    Lines(Seq<TextLineView>),
}

impl View for Content {
    type V = ContentView;

    open spec fn view(&self) -> ContentView {
        match self {
            Content::Raw(text) => ContentView::Raw(text@),
            Content::Lines(lines) => ContentView::Lines(line_views(lines@)),
        }
    }
}

/// Where the text of a paragraph stands in its area.
#[derive(Debug, Clone, Copy, PartialEq, Eq, Structural)]
pub enum Alignment {
    Left,
    Center,
}

/// An area of the screen.
#[derive(Debug, Clone, Copy, PartialEq, Eq, Structural)]
pub struct Rect {
    pub x: u16,
    pub y: u16,
    pub width: u16,
    pub height: u16,
}

/// The item of a list that is selected, if there is one, and the first item on the
/// screen.
#[derive(Debug, Clone, Copy, PartialEq, Eq, Structural)]
pub struct Selection {
    pub offset: usize,
    pub selected: Option<usize>,
}

/// The two lists on the screen.
#[derive(Debug, Clone, Copy, PartialEq, Eq, Structural)]
pub enum ViewId {
    Packages,
    Rules,
}

/// One thing to draw.
#[derive(Debug)]
pub enum Piece {
    /// A border all around the area, with a title in the middle of its top.
    Frame { area: Rect, title: String, border: Style },
    /// A paragraph, `scroll` lines down.
    Paragraph {
        area: Rect,
        content: Content,
        style: Style,
        alignment: Alignment,
        scroll: u16,
    },
    /// A paragraph with a border and a column of space on both sides.
    Boxed { area: Rect, content: Content, style: Style, alignment: Alignment },
    /// A list from the item at `selection.offset` on. The item selected is
    /// highlighted.
    List { area: Rect, items: Vec<Vec<Span>>, selection: Selection, highlight: Style },
    /// Nothing: what was drawn in the area before is taken away.
    Clear { area: Rect },
}

/// What a thing to draw holds.
pub enum PieceView {
    Frame { area: Rect, title: Text, border: Style },
    Paragraph {
        area: Rect,
        content: ContentView,
        style: Style,
        alignment: Alignment,
        scroll: u16,
    },
    Boxed { area: Rect, content: ContentView, style: Style, alignment: Alignment },
    List { area: Rect, items: Seq<Seq<SpanView>>, selection: Selection, highlight: Style },
    Clear { area: Rect },
}

impl View for Piece {
    type V = PieceView;

    open spec fn view(&self) -> PieceView {
        match self {
            Piece::Frame { area, title, border } => PieceView::Frame {
                area: *area,
                title: title@,
                border: *border,
            },
            Piece::Paragraph { area, content, style, alignment, scroll } => PieceView::Paragraph {
                area: *area,
                content: content@,
                style: *style,
                alignment: *alignment,
                scroll: *scroll,
            },
            Piece::Boxed { area, content, style, alignment } => PieceView::Boxed {
                area: *area,
                content: content@,
                style: *style,
                alignment: *alignment,
            },
            Piece::List { area, items, selection, highlight } => PieceView::List {
                area: *area,
                items: item_views(items@),
                selection: *selection,
                highlight: *highlight,
            },
            Piece::Clear { area } => PieceView::Clear { area: *area },
        }
    }
}

/// What each thing to draw holds.
pub open spec fn piece_views(pieces: Seq<Piece>) -> Seq<PieceView> {
    pieces.map_values(|piece: Piece| piece@)
}

/// The direction in which areas follow one another.
#[derive(Debug, Clone, Copy, PartialEq, Eq, Structural)]
pub enum Direction {
    Horizontal,
    Vertical,
}

/// How much of the whole an area takes.
#[derive(Debug, Clone, Copy, PartialEq, Eq, Structural)]
pub enum Constraint {
    Length(u16),
    Min(u16),
    Percentage(u16),
}

/// `ratatui::layout::Layout::split` may divide `area` into `parts`. The solver
/// behind it walks hash maps, so that more than one division may be possible.
pub uninterp spec fn may_split(
    direction: Direction,
    constraints: Seq<Constraint>,
    area: Rect,
    parts: Seq<Rect>,
) -> bool;

/// The part goes nowhere beyond the area.
pub open spec fn lies_within(part: Rect, area: Rect) -> bool {
    &&& area.x <= part.x
    &&& part.x + part.width <= area.x + area.width
    &&& area.y <= part.y
    &&& part.y + part.height <= area.y + area.height
}

/// There is a part for each constraint, and each part lies within the area and goes
/// from side to side across the direction.
pub open spec fn spans_across(
    direction: Direction,
    constraints: Seq<Constraint>,
    area: Rect,
    parts: Seq<Rect>,
) -> bool {
    &&& parts.len() == constraints.len()
    &&& forall|i: int| 0 <= i < parts.len() ==> lies_within(#[trigger] parts[i], area)
    &&& forall|i: int|
        0 <= i < parts.len() ==> match direction {
            Direction::Horizontal => (#[trigger] parts[i]).y == area.y && parts[i].height
                == area.height,
            Direction::Vertical => parts[i].x == area.x && parts[i].width == area.width,
        }
}

/// `Layout::split`: the parts are what it may divide the area into, one for each
/// constraint. Each lies within the area, since the start and the end of every part
/// are required to lie between those of the area, and each goes from side to side
/// across the direction. How long they are in the direction is left to the name
/// `may_split`.
#[verifier::external_body]
pub(crate) fn split_area(direction: Direction, constraints: &Vec<Constraint>, area: Rect) -> (r:
    Vec<Rect>)
    ensures
        may_split(direction, constraints@, area, r@),
        spans_across(direction, constraints@, area, r@),
{
    let direction = match direction {
        Direction::Horizontal => layout::Direction::Horizontal,
        Direction::Vertical => layout::Direction::Vertical,
    };
    let constraints = constraints.iter().map(|c| match *c {
        Constraint::Length(n) => layout::Constraint::Length(n),
        Constraint::Min(n) => layout::Constraint::Min(n),
        Constraint::Percentage(n) => layout::Constraint::Percentage(n),
    });
    let area = layout::Rect { x: area.x, y: area.y, width: area.width, height: area.height };
    let parts = layout::Layout::default().direction(direction).constraints(constraints).split(area);
    parts.iter().map(|p| Rect { x: p.x, y: p.y, width: p.width, height: p.height }).collect()
}

/// The smaller of two numbers.
pub open spec fn smaller(a: int, b: int) -> int {
    if a <= b {
        a
    } else {
        b
    }
}

/// `n`, or zero if it is negative.
pub open spec fn at_least_zero(n: int) -> int {
    if n < 0 {
        0
    } else {
        n
    }
}

/// The area inside a border and `padding` columns on both sides. It is empty
/// where there is no room, and no coordinate goes beyond the largest there is.
pub open spec fn inside(area: Rect, padding: u16) -> Rect {
    let max = u16::MAX as int;
    let x = smaller(smaller(area.x + 1, area.x + area.width), max);
    Rect {
        x: smaller(x + padding, max) as u16,
        y: smaller(smaller(area.y + 1, area.y + area.height), max) as u16,
        width: at_least_zero(at_least_zero(area.width - 2) - 2 * padding) as u16,
        height: at_least_zero(area.height - 2) as u16,
    }
}

/// `ratatui::widgets::Block::inner`, of a block with all borders and horizontal
/// padding: the area inside of both. The method adds the padding of both sides
/// without a check for overflow.
#[verifier::external_body]
pub(crate) fn inner_area(area: Rect, padding: u16) -> (r: Rect)
    requires
        2 * padding <= u16::MAX,
    ensures
        r == inside(area, padding),
{
    let area = layout::Rect { x: area.x, y: area.y, width: area.width, height: area.height };
    let block = Block::default().borders(Borders::ALL).padding(Padding::horizontal(padding));
    let inner = block.inner(area);
    Rect { x: inner.x, y: inner.y, width: inner.width, height: inner.height }
}

} // verus!
