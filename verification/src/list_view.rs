//! A list of which one item is selected, and the line of key bindings below it.

use ratatui::buffer::Buffer;
use ratatui::layout;
use ratatui::text::Line;
use ratatui::widgets::{List, ListItem, ListState, StatefulWidget};
use vstd::prelude::*;

use crate::key::{KeyCode, KeyEvent};
use crate::scene::{
    Alignment, Color, Constraint, Content, ContentView, Direction, Piece, PieceView, Rect, Selection,
    Span, SpanView, Style, TextLine, TextLineView, ViewId, bold, bold_color_style, bold_colored,
    bold_style, clone_items, color_style, colored, inner_area, inside, item_views, line_views,
    may_split, piece_views, plain, plain_style, smaller, span_views, spans_across, split_area,
};
use crate::text::Text;

verus! {

/// A key, or several, and what pressing it does.
pub type Binding = (&'static str, &'static str);

/// What each binding of a list holds.
pub open spec fn binding_views(bindings: Seq<Binding>) -> Seq<(Text, Text)> {
    bindings.map_values(|binding: Binding| (binding.0@, binding.1@))
}

/// The line that tells of the bindings: key and description, with a bar between
/// neighbours.
pub open spec fn bindings_line(bindings: Seq<(Text, Text)>) -> Seq<SpanView>
    decreases bindings.len(),
{
    if bindings.len() == 0 {
        Seq::empty()
    } else {
        let before = bindings_line(bindings.drop_last());
        let bar = SpanView { text: " | "@, style: color_style(Color::DarkGray) };
        let key = SpanView { text: bindings.last().0, style: bold_color_style(Color::Blue) };
        let description = SpanView { text: ": "@ + bindings.last().1, style: plain_style() };
        if bindings.len() == 1 {
            before.push(key).push(description)
        } else {
            before.push(bar).push(key).push(description)
        }
    }
}

/// The drawing of the line that tells of the bindings.
pub open spec fn bindings_piece(bindings: Seq<(Text, Text)>, area: Rect) -> PieceView {
    PieceView::Paragraph {
        area,
        content: ContentView::Lines(seq![TextLineView::Spans(bindings_line(bindings))]),
        style: plain_style(),
        alignment: Alignment::Center,
        scroll: 0,
    }
}

/// The drawing of the line that tells of the bindings.
pub fn render_bindings_line(bindings: &Vec<Binding>, area: Rect) -> (r: Piece)
    ensures
        r@ == bindings_piece(binding_views(bindings@), area),
{
    let mut spans: Vec<Span> = Vec::new();
    let ghost all = binding_views(bindings@);
    for i in 0..bindings.len()
        invariant
            all == binding_views(bindings@),
            span_views(spans@) == bindings_line(all.take(i as int)),
    {
        let ghost before = span_views(spans@);
        let (key, description) = bindings[i];
        assert(all.take(i + 1).drop_last() =~= all.take(i as int));
        assert(all.take(i + 1).last() == all[i as int]);
        if i > 0 {
            spans.push(Span { text: " | ".to_owned(), style: colored(Color::DarkGray) });
        }
        spans.push(Span { text: key.to_owned(), style: bold_colored(Color::Blue) });
        let mut text = ": ".to_owned();
        text.append(description);
        spans.push(Span { text, style: plain() });
        assert(span_views(spans@) =~= bindings_line(all.take(i + 1)));
    }
    assert(all.take(bindings@.len() as int) =~= all);
    let lines = vec![TextLine::Spans(spans)];
    assert(line_views(lines@) =~= seq![TextLineView::Spans(bindings_line(all))]);
    Piece::Paragraph {
        area,
        content: Content::Lines(lines),
        style: plain(),
        alignment: Alignment::Center,
        scroll: 0,
    }
}

impl Selection {
    /// The index selected; the first one if there is none.
    pub open spec fn index(self) -> usize {
        match self.selected {
            Some(i) => i,
            None => 0,
        }
    }

    /// The same list with the given item selected.
    pub open spec fn at(self, i: usize) -> Selection {
        Selection { selected: Some(i), ..self }
    }

    /// The index after the one selected; the first one if there is none.
    pub open spec fn next_index(self) -> usize {
        match self.selected {
            Some(i) => if i < usize::MAX {
                (i + 1) as usize
            } else {
                i
            },
            None => 0,
        }
    }

    /// The item that is to be on the screen, of `len` items: the one selected, or the
    /// first one on the screen if there is none. What is past the end stands for the
    /// last item.
    pub open spec fn shown_index(self, len: nat) -> int {
        let index = match self.selected {
            Some(i) => i,
            None => self.offset,
        };
        smaller(index as int, len - 1)
    }

    /// The selection once a list of `len` items, a line each, was painted in `area`.
    /// No item is selected if there is none, and the last one if there are fewer than
    /// up to the one selected. The items are moved just as far as it takes to have the
    /// one selected on the screen. Where there is no room nothing changes.
    pub open spec fn painted(self, len: nat, area: Rect) -> Selection {
        let first = smaller(self.offset as int, len - 1);
        let shown = self.shown_index(len);
        if area.width == 0 || area.height == 0 {
            self
        } else if len == 0 {
            Selection { offset: 0, selected: None }
        } else {
            Selection {
                offset: (if shown < first {
                    shown
                } else if shown >= first + area.height {
                    shown + 1 - area.height
                } else {
                    first
                }) as usize,
                selected: if self.selected is Some {
                    Some(shown as usize)
                } else {
                    None
                },
            }
        }
    }

    /// The index before the one selected; the largest there is if there is none.
    pub open spec fn previous_index(self) -> usize {
        match self.selected {
            Some(i) => if i > 0 {
                (i - 1) as usize
            } else {
                0
            },
            None => usize::MAX,
        }
    }
}

/// `ratatui::widgets::ListState::select`, of an index: that index is selected.
#[verifier::external_body]
fn select(selection: Selection, index: usize) -> (r: Selection)
    ensures
        r == selection.at(index),
{
    let mut state = ListState::default().with_offset(selection.offset).with_selected(
        selection.selected,
    );
    state.select(Some(index));
    Selection { offset: state.offset(), selected: state.selected() }
}

/// `ratatui::widgets::ListState::select_next`: the next index is selected, or the
/// first one if none was. The number of items plays no part.
#[verifier::external_body]
fn select_next(selection: Selection) -> (r: Selection)
    ensures
        r == selection.at(selection.next_index()),
{
    let mut state = ListState::default().with_offset(selection.offset).with_selected(
        selection.selected,
    );
    state.select_next();
    Selection { offset: state.offset(), selected: state.selected() }
}

/// `ratatui::widgets::ListState::select_previous`: the previous index is selected,
/// or the largest one if none was. The number of items plays no part.
#[verifier::external_body]
fn select_previous(selection: Selection) -> (r: Selection)
    ensures
        r == selection.at(selection.previous_index()),
{
    let mut state = ListState::default().with_offset(selection.offset).with_selected(
        selection.selected,
    );
    state.select_previous();
    Selection { offset: state.offset(), selected: state.selected() }
}

/// `ratatui::widgets::List`, rendered with a `ListState`: the state that it leaves. A
/// selection past the end goes to the last item, none is left in an empty list, and
/// the offset is moved until the item selected is visible. Every item is one line, so
/// that only their number counts, and of the area only its size. An area without room
/// leaves the state as it is.
#[verifier::external_body]
fn paint_selection(selection: Selection, items: &Vec<Vec<Span>>, area: Rect) -> (r: Selection)
    ensures
        r == selection.painted(items@.len(), area),
{
    let items = items.iter().map(|i| ListItem::new(Line::from_iter(i.iter().map(|s| &*s.text))));
    let mut state = ListState::default().with_offset(selection.offset).with_selected(
        selection.selected,
    );
    let size = layout::Rect { x: 0, y: 0, width: area.width, height: area.height };
    let mut buffer = Buffer::empty(layout::Rect::ZERO);
    StatefulWidget::render(List::new(items), size, &mut buffer, &mut state);
    Selection { offset: state.offset(), selected: state.selected() }
}

/// The number of lines of a page.
pub const PAGE: usize = 20;

/// How a key moves through lines.
#[derive(Debug, Clone, Copy, PartialEq, Eq, Structural)]
pub enum Move {
    Up,
    Down,
    PageUp,
    PageDown,
}

/// How a key moves through lines, if it does.
pub open spec fn key_move(key: KeyEvent) -> Option<Move> {
    match key.code {
        KeyCode::Down => Some(Move::Down),
        KeyCode::Up => Some(Move::Up),
        KeyCode::PageDown => Some(Move::PageDown),
        KeyCode::PageUp => Some(Move::PageUp),
        KeyCode::Char(c) => if c == 'j' {
            Some(Move::Down)
        } else if c == 'k' {
            Some(Move::Up)
        } else if c == 'd' && key.control {
            Some(Move::PageDown)
        } else if c == 'u' && key.control {
            Some(Move::PageUp)
        } else {
            None
        },
        _ => None,
    }
}

/// How a key moves through lines, if it does.
pub fn move_of(key: KeyEvent) -> (r: Option<Move>)
    ensures
        r == key_move(key),
{
    match key.code {
        KeyCode::Down | KeyCode::Char('j') => Some(Move::Down),
        KeyCode::PageDown => Some(Move::PageDown),
        KeyCode::Char('d') if key.control => Some(Move::PageDown),
        KeyCode::Up | KeyCode::Char('k') => Some(Move::Up),
        KeyCode::PageUp => Some(Move::PageUp),
        KeyCode::Char('u') if key.control => Some(Move::PageUp),
        _ => None,
    }
}

/// A list with a title, of which one item is selected. `view` tells which of the lists
/// on the screen it is.
#[derive(Debug)]
pub struct ListView {
    pub view: ViewId,
    pub title: &'static str,
    pub header: Option<String>,
    pub list_items: Vec<Vec<Span>>,
    pub selection: Selection,
    pub bindings: Vec<Binding>,
}

/// What a list holds.
pub struct ListModel {
    pub view: ViewId,
    pub title: Text,
    pub header: Option<Text>,
    pub items: Seq<Seq<SpanView>>,
    pub selection: Selection,
    pub bindings: Seq<(Text, Text)>,
}

/// What an optional string holds.
pub open spec fn option_text(option: Option<String>) -> Option<Text> {
    match option {
        Some(s) => Some(s@),
        None => None,
    }
}

impl View for ListView {
    type V = ListModel;

    open spec fn view(&self) -> ListModel {
        ListModel {
            view: self.view,
            title: self.title@,
            header: option_text(self.header),
            items: item_views(self.list_items@),
            selection: self.selection,
            bindings: binding_views(self.bindings@),
        }
    }
}

impl ListModel {
    /// The list has the focus: it is the active one, and no window is open over it.
    pub open spec fn focused(self, active: ViewId, modal_open: bool) -> bool {
        self.view == active && !modal_open
    }

    /// A page down from here stays within what indices can count, and there is an
    /// item to go to.
    pub open spec fn has_page_down(self) -> bool {
        self.items.len() > 0 && self.selection.index() + PAGE <= usize::MAX
    }

    /// The move can be made: of those there are, only a page down may be too much.
    pub open spec fn can_move(self, key: KeyEvent) -> bool {
        key_move(key) == Some(Move::PageDown) ==> self.has_page_down()
    }

    /// The list with another item selected: one line or one page up or down. A
    /// page stops at the first and at the last item; a line does so only when the
    /// list is drawn.
    pub open spec fn moved(self, by: Move) -> ListModel {
        let index = self.selection.index();
        let last = self.items.len() - 1;
        let to = match by {
            Move::Down => self.selection.next_index(),
            Move::Up => self.selection.previous_index(),
            Move::PageDown => if index + PAGE <= last {
                (index + PAGE) as usize
            } else {
                last as usize
            },
            Move::PageUp => if index >= PAGE {
                (index - PAGE) as usize
            } else {
                0
            },
        };
        ListModel { selection: self.selection.at(to), ..self }
    }
}

/// The border of a list that has the focus or not.
pub open spec fn border_style(focused: bool) -> Style {
    if focused {
        color_style(Color::Blue)
    } else {
        Style { fg: Some(Color::DarkGray), bg: None, bold: false, dim: true }
    }
}

/// The selected item of a list that has the focus or not.
pub open spec fn highlight_style(focused: bool) -> Style {
    if focused {
        Style { fg: Some(Color::Black), bg: Some(Color::Gray), bold: true, dim: false }
    } else {
        Style { fg: Some(Color::Gray), bg: Some(Color::Black), bold: false, dim: true }
    }
}

/// How the inside of a list is divided: a line for the header, if there is one,
/// the items, and a line for the bindings.
pub open spec fn list_constraints(has_header: bool) -> Seq<Constraint> {
    if has_header {
        seq![Constraint::Length(1), Constraint::Min(0), Constraint::Length(1)]
    } else {
        seq![Constraint::Min(0), Constraint::Length(1)]
    }
}

impl ListModel {
    /// The list once its items were painted in `area`.
    pub open spec fn painted(self, area: Rect) -> ListModel {
        ListModel { selection: self.selection.painted(self.items.len(), area), ..self }
    }

    /// The drawing of the list, with its inside divided into `sections`.
    pub open spec fn scene(self, focused: bool, area: Rect, sections: Seq<Rect>) -> Seq<PieceView> {
        let frame = PieceView::Frame { area, title: self.title, border: border_style(focused) };
        let framed = match self.header {
            Some(header) => seq![
                frame,
                PieceView::Paragraph {
                    area: sections[0],
                    content: ContentView::Lines(
                        seq![
                            TextLineView::Spans(
                                seq![SpanView { text: header, style: bold_style() }],
                            ),
                        ],
                    ),
                    style: plain_style(),
                    alignment: Alignment::Left,
                    scroll: 0,
                },
            ],
            None => seq![frame],
        };
        let listed = framed.push(
            PieceView::List {
                area: sections[sections.len() - 2],
                items: self.items,
                selection: self.selection,
                highlight: highlight_style(focused),
            },
        );
        if focused {
            listed.push(bindings_piece(self.bindings, sections.last()))
        } else {
            listed
        }
    }

    /// `after` is the list once it is drawn in `area`, and `pieces` are the drawing.
    pub open spec fn drawn(
        self,
        focused: bool,
        area: Rect,
        after: ListModel,
        pieces: Seq<PieceView>,
    ) -> bool {
        exists|sections: Seq<Rect>|
            {
                &&& #[trigger] may_split(
                    Direction::Vertical,
                    list_constraints(self.header is Some),
                    inside(area, 1),
                    sections,
                )
                &&& spans_across(
                    Direction::Vertical,
                    list_constraints(self.header is Some),
                    inside(area, 1),
                    sections,
                )
                &&& after == self.painted(sections[sections.len() - 2])
                &&& pieces == after.scene(focused, area, sections)
            }
    }
}

impl ListView {
    /// A list with the item at index `selected` selected.
    pub fn new(
        title: &'static str,
        header: Option<String>,
        list_items: Vec<Vec<Span>>,
        view: ViewId,
        bindings: Vec<Binding>,
        selected: usize,
    ) -> (r: Self)
        ensures
            r@ == (ListModel {
                view,
                title: title@,
                header: option_text(header),
                items: item_views(list_items@),
                selection: Selection { offset: 0, selected: Some(selected) },
                bindings: binding_views(bindings@),
            }),
    {
        ListView {
            view,
            title,
            header,
            list_items,
            selection: Selection { offset: 0, selected: Some(selected) },
            bindings,
        }
    }

    /// Whether the list has the focus, if `active` is the active list and a window is
    /// open or not.
    pub fn is_active(&self, active: ViewId, modal_open: bool) -> (r: bool)
        ensures
            r == self@.focused(active, modal_open),
    {
        self.view == active && !modal_open
    }

    /// Moves the selection if the key does so. Returns whether it does.
    pub fn handle_key(&mut self, key: KeyEvent) -> (r: bool)
        requires
            old(self)@.can_move(key),
        ensures
            match key_move(key) {
                Some(by) => r && final(self)@ == old(self)@.moved(by),
                None => !r && *final(self) == *old(self),
            },
    {
        match move_of(key) {
            Some(Move::Down) => {
                self.move_down();
                true
            },
            Some(Move::PageDown) => {
                self.move_down_by(PAGE);
                true
            },
            Some(Move::Up) => {
                self.move_up();
                true
            },
            Some(Move::PageUp) => {
                self.move_up_by(PAGE);
                true
            },
            None => false,
        }
    }

    /// Whether the move that the key makes can be made.
    pub fn accepts_key(&self, key: KeyEvent) -> (r: bool)
        ensures
            r == self@.can_move(key),
    {
        match move_of(key) {
            Some(Move::PageDown) => self.list_items.len() > 0 && self.selected() <= usize::MAX
                - PAGE,
            _ => true,
        }
    }

    /// The index selected; the first one if there is none.
    pub fn selected(&self) -> (r: usize)
        ensures
            r == self@.selection.index(),
    {
        match self.selection.selected {
            Some(i) => i,
            None => 0,
        }
    }

    /// Selects the previous item.
    pub fn move_up(&mut self)
        ensures
            final(self)@ == old(self)@.moved(Move::Up),
    {
        self.selection = select_previous(self.selection);
    }

    /// Selects the item `lines` before the one selected, or the first one.
    pub fn move_up_by(&mut self, lines: usize)
        ensures
            final(self)@ == (ListModel {
                selection: old(self)@.selection.at(
                    if old(self)@.selection.index() >= lines {
                        (old(self)@.selection.index() - lines) as usize
                    } else {
                        0
                    },
                ),
                ..old(self)@
            }),
    {
        let new_selection: usize = self.selected().saturating_sub(lines);
        self.selection = select(self.selection, new_selection);
    }

    /// Selects the next item.
    pub fn move_down(&mut self)
        ensures
            final(self)@ == old(self)@.moved(Move::Down),
    {
        self.selection = select_next(self.selection);
    }

    /// Selects the item `lines` after the one selected, or the last one.
    pub fn move_down_by(&mut self, lines: usize)
        requires
            old(self).list_items@.len() > 0,
            old(self)@.selection.index() + lines <= usize::MAX,
        ensures
            final(self)@ == (ListModel {
                selection: old(self)@.selection.at(
                    if old(self)@.selection.index() + lines <= old(self)@.items.len() - 1 {
                        (old(self)@.selection.index() + lines) as usize
                    } else {
                        (old(self)@.items.len() - 1) as usize
                    },
                ),
                ..old(self)@
            }),
    {
        let target: usize = self.selected() + lines;
        let last: usize = self.list_items.len() - 1;
        let new_selection: usize = if target <= last {
            target
        } else {
            last
        };
        self.selection = select(self.selection, new_selection);
    }

    /// The drawing of the list, with its inside divided into `sections`. It brings the
    /// item selected onto the screen.
    pub fn draw(&mut self, focused: bool, area: Rect, sections: &Vec<Rect>) -> (r: Vec<Piece>)
        requires
            sections@.len() == list_constraints(old(self)@.header is Some).len(),
        ensures
            final(self)@ == old(self)@.painted(sections@[sections@.len() - 2]),
            piece_views(r@) == final(self)@.scene(focused, area, sections@),
    {
        let list_area = sections[sections.len() - 2];
        assert(item_views(self.list_items@).len() == self.list_items@.len());
        self.selection = paint_selection(self.selection, &self.list_items, list_area);
        let border = if focused {
            colored(Color::Blue)
        } else {
            Style { fg: Some(Color::DarkGray), bg: None, bold: false, dim: true }
        };
        let highlight = if focused {
            Style { fg: Some(Color::Black), bg: Some(Color::Gray), bold: true, dim: false }
        } else {
            Style { fg: Some(Color::Gray), bg: Some(Color::Black), bold: false, dim: true }
        };
        let mut pieces: Vec<Piece> = Vec::new();
        pieces.push(Piece::Frame { area, title: self.title.to_owned(), border });
        if let Some(header) = &self.header {
            let spans = vec![Span { text: header.clone(), style: bold() }];
            assert(span_views(spans@) =~= seq![SpanView { text: header@, style: bold_style() }]);
            let lines = vec![TextLine::Spans(spans)];
            assert(line_views(lines@) =~= seq![
                TextLineView::Spans(seq![SpanView { text: header@, style: bold_style() }]),
            ]);
            pieces.push(
                Piece::Paragraph {
                    area: sections[0],
                    content: Content::Lines(lines),
                    style: plain(),
                    alignment: Alignment::Left,
                    scroll: 0,
                },
            );
        }
        pieces.push(
            Piece::List {
                area: list_area,
                items: clone_items(&self.list_items),
                selection: self.selection,
                highlight,
            },
        );
        if focused {
            pieces.push(render_bindings_line(&self.bindings, sections[sections.len() - 1]));
        }
        assert(piece_views(pieces@) =~= self@.scene(focused, area, sections@));
        pieces
    }

    /// A drawing of the list in `area`. It brings the item selected onto the screen.
    pub fn render(&mut self, focused: bool, area: Rect) -> (r: Vec<Piece>)
        ensures
            old(self)@.drawn(focused, area, final(self)@, piece_views(r@)),
    {
        let inner = inner_area(area, 1);
        let constraints = if self.header.is_some() {
            vec![Constraint::Length(1), Constraint::Min(0), Constraint::Length(1)]
        } else {
            vec![Constraint::Min(0), Constraint::Length(1)]
        };
        assert(constraints@ =~= list_constraints(self@.header is Some));
        let sections = split_area(Direction::Vertical, &constraints, inner);
        self.draw(focused, area, &sections)
    }
}

} // verus!
