//! What is seen of the lists of sub-packages and rules, and how the selection moves.

use vstd::prelude::*;

use crate::app::AppView;
use crate::bazel::RuleView;
use crate::key::{KeyCode, KeyEvent};
use crate::laws::text::padding_puts_spaces_in_front;
use crate::list_view::{
    Binding, ListModel, ListView, Move, binding_views, bindings_line, bindings_piece,
    border_style, highlight_style, key_move, list_constraints,
};
use crate::scene::{
    Alignment, Color, Constraint, Content, ContentView, Direction, Piece, PieceView, Rect,
    Selection, Span, SpanView, Style, TextLine, TextLineView, ViewId, bold_color_style,
    bold_style, color_style, inside, item_views, lies_within, line_views, may_split, piece_views,
    plain_style, span_views, spans_across,
};
use crate::text::{Text, byte_len};
use crate::ui::{package_items, packages_list, rule_items, rules_list, type_width};

verus! {

/// Plain text has no color and no weight, and other looks differ from it in what they say.
pub proof fn looks_are_what_they_say(color: Color)
    ensures
        plain_style().fg is None && plain_style().bg is None,
        !plain_style().bold && !plain_style().dim,
        bold_style() == (Style { bold: true, ..plain_style() }),
        color_style(color) == (Style { fg: Some(color), ..plain_style() }),
        bold_color_style(color) == (Style { fg: Some(color), bold: true, ..plain_style() }),
{
}

/// What is said of spans and of the items of a list is said of each in its place.
pub proof fn spans_are_in_place(spans: Seq<Span>, items: Seq<Vec<Span>>, i: int)
    ensures
        span_views(spans).len() == spans.len(),
        0 <= i < spans.len() ==> span_views(spans)[i].text == spans[i].text@
            && span_views(spans)[i].style == spans[i].style,
        item_views(items).len() == items.len(),
        0 <= i < items.len() ==> item_views(items)[i] == span_views(items[i]@),
{
}

/// What is said of the lines of a text and of its content is said of each in its place.
pub proof fn lines_are_in_place(lines: Seq<TextLine>, content: Content, i: int)
    ensures
        line_views(lines).len() == lines.len(),
        0 <= i < lines.len() ==> line_views(lines)[i] == match lines[i] {
            TextLine::Styled(span) => TextLineView::Styled(span@),
            TextLine::Spans(spans) => TextLineView::Spans(span_views(spans@)),
        },
        content@ == match content {
            Content::Raw(text) => ContentView::Raw(text@),
            Content::Lines(lines) => ContentView::Lines(line_views(lines@)),
        },
{
}

/// What is said of the pieces of a drawing is said of each in its place and of all that it
/// holds.
pub proof fn pieces_are_in_place(pieces: Seq<Piece>, i: int)
    ensures
        piece_views(pieces).len() == pieces.len(),
        0 <= i < pieces.len() ==> match pieces[i] {
            Piece::Frame { area, title, border } => piece_views(pieces)[i] == (PieceView::Frame {
                area,
                title: title@,
                border,
            }),
            Piece::Paragraph { area, content, style, alignment, scroll } => piece_views(pieces)[i]
                == (PieceView::Paragraph { area, content: content@, style, alignment, scroll }),
            Piece::Boxed { area, content, style, alignment } => piece_views(pieces)[i] == (
            PieceView::Boxed { area, content: content@, style, alignment }),
            Piece::List { area, items, selection, highlight } => piece_views(pieces)[i] == (
            PieceView::List { area, items: item_views(items@), selection, highlight }),
            Piece::Clear { area } => piece_views(pieces)[i] == (PieceView::Clear { area }),
        },
{
}

/// What is said of a list is said of what it holds.
pub proof fn list_is_what_it_holds(list: ListView, bindings: Seq<Binding>, i: int)
    ensures
        list@.view == list.view,
        list@.title == list.title@,
        list@.header is Some <==> list.header is Some,
        list.header is Some ==> list@.header == Some((list.header->0)@),
        list@.items == item_views(list.list_items@),
        list@.selection == list.selection,
        list@.bindings == binding_views(list.bindings@),
        binding_views(bindings).len() == bindings.len(),
        0 <= i < bindings.len() ==> binding_views(bindings)[i] == (
            bindings[i].0@,
            bindings[i].1@,
        ),
{
}

/// The list of sub-packages has a row for each, in order: a branch of a tree, the last one of
/// which ends it, and the name of the sub-package.
pub proof fn rows_are_the_sub_packages(children: Seq<Text>, i: int)
    ensures
        package_items(children).len() == children.len(),
        0 <= i < children.len() ==> {
            let row = package_items(children)[i];
            &&& row.len() == 2
            &&& row[0].text == (if i + 1 == children.len() {
                "└── "@
            } else {
                "├── "@
            })
            &&& row[0].style.fg == Some(Color::DarkGray)
            &&& row[1].text == children[i]
            &&& row[1].style == plain_style()
        },
{
}

proof fn lemma_type_width(rules: Seq<RuleView>)
    ensures
        forall|i: int|
            0 <= i < rules.len() ==> byte_len((#[trigger] rules[i]).rule_type) <= type_width(rules),
        rules.len() == 0 ==> type_width(rules) == 0,
        rules.len() > 0 ==> exists|i: int|
            0 <= i < rules.len() && byte_len((#[trigger] rules[i]).rule_type) == type_width(rules),
    decreases rules.len(),
{
    if rules.len() > 0 {
        let before = rules.drop_last();
        lemma_type_width(before);
        assert forall|i: int| 0 <= i < rules.len() implies byte_len(
            (#[trigger] rules[i]).rule_type,
        ) <= type_width(rules) by {
            if i < before.len() {
                assert(before[i] == rules[i]);
            }
        }
        if byte_len(rules.last().rule_type) > type_width(before) || before.len() == 0 {
            assert(byte_len(rules[rules.len() - 1].rule_type) == type_width(rules));
        } else {
            let i = choose|i: int|
                0 <= i < before.len() && byte_len((#[trigger] before[i]).rule_type) == type_width(
                    before,
                );
            assert(byte_len(rules[i].rule_type) == type_width(rules));
        }
    }
}

/// The column of the types is as wide as the longest type.
pub proof fn column_is_as_wide_as_the_longest_type(rules: Seq<RuleView>)
    ensures
        forall|i: int|
            0 <= i < rules.len() ==> byte_len((#[trigger] rules[i]).rule_type) <= type_width(rules),
        rules.len() == 0 ==> type_width(rules) == 0,
        rules.len() > 0 ==> exists|i: int|
            0 <= i < rules.len() && byte_len((#[trigger] rules[i]).rule_type) == type_width(rules),
{
    lemma_type_width(rules);
}

/// The list of rules has a row for each, in order: its type, at the right of its column, and
/// after a space its name.
pub proof fn rows_are_the_rules(rules: Seq<RuleView>, i: int, k: int)
    ensures
        rule_items(rules).len() == rules.len(),
        0 <= i < rules.len() ==> {
            let row = rule_items(rules)[i];
            let kind = rules[i].rule_type;
            &&& row.len() == 2
            &&& row[0].text.len() == (if kind.len() < type_width(rules) {
                type_width(rules) as nat
            } else {
                kind.len()
            })
            &&& row[0].text.skip(row[0].text.len() - kind.len()) == kind
            &&& 0 <= k < row[0].text.len() - kind.len() ==> row[0].text[k] == ' '
            &&& row[0].style.fg == Some(Color::Blue) && row[0].style.bold
            &&& row[1].text == seq![' '] + rules[i].name
            &&& row[1].style == plain_style()
        },
{
    reveal_strlit(" ");
    assert(" "@ =~= seq![' ']);
    if 0 <= i < rules.len() {
        padding_puts_spaces_in_front(rules[i].rule_type, type_width(rules) as nat, k);
    }
}

/// The list of sub-packages of a place: its title, the package over it, a row for each
/// sub-package, and the first one selected.
pub proof fn packages_are_listed(app: AppView, i: int)
    ensures
        packages_list(app).view == ViewId::Packages,
        packages_list(app).title == "1: Packages"@,
        packages_list(app).header == Some("//"@ + app.package()),
        packages_list(app).items.len() == app.children.len(),
        0 <= i < app.children.len() ==> packages_list(app).items[i].len() == 2 && packages_list(
            app,
        ).items[i][1].text == app.children[i],
        packages_list(app).items == package_items(app.children),
        packages_list(app).selection.selected == Some(0usize),
        packages_list(app).selection.offset == 0,
        packages_list(app).bindings == seq![
            ("↑↓/jk/C-u/C-d/PgUp/PgDn"@, "Navigate"@),
            ("Enter"@, "Select"@),
            ("u"@, "Go to Parent"@),
            ("Tab/h/l"@, "Switch View"@),
            ("q"@, "Quit"@),
        ],
{
}

/// The list of rules of a place: its title, a row for each rule, and the first one selected.
pub proof fn rules_are_listed(app: AppView, i: int)
    ensures
        rules_list(app).view == ViewId::Rules,
        rules_list(app).title == "2: Rules"@,
        rules_list(app).header is None,
        rules_list(app).items.len() == app.rules.len(),
        0 <= i < app.rules.len() ==> rules_list(app).items[i].len() == 2 && rules_list(
            app,
        ).items[i][1].text == seq![' '] + app.rules[i].name,
        rules_list(app).items == rule_items(app.rules),
        rules_list(app).selection.selected == Some(0usize),
        rules_list(app).selection.offset == 0,
        rules_list(app).bindings == seq![
            ("↑↓/jk/C-u/C-d/PgUp/PgDn"@, "Navigate"@),
            ("Enter"@, "View Rule"@),
            ("Tab/h/l"@, "Switch View"@),
            ("q"@, "Quit"@),
        ],
{
    rows_are_the_rules(app.rules, i, 0);
}

/// The line of bindings tells of each binding, in order: the key, and after a colon what it
/// does, with a bar between neighbours.
pub proof fn bindings_are_told_in_order(bindings: Seq<(Text, Text)>, binding: (Text, Text))
    ensures
        bindings_line(Seq::empty()) == Seq::<SpanView>::empty(),
        bindings_line(seq![binding]).len() == 2,
        bindings_line(seq![binding])[0].text == binding.0,
        bindings_line(seq![binding])[0].style == (Style {
            fg: Some(Color::Blue),
            bg: None,
            bold: true,
            dim: false,
        }),
        bindings_line(seq![binding])[1].text == ": "@ + binding.1,
        bindings_line(seq![binding])[1].style == plain_style(),
        bindings.len() > 0 ==> bindings_line(bindings.push(binding)) == bindings_line(
            bindings,
        ).push(
            SpanView {
                text: " | "@,
                style: Style { fg: Some(Color::DarkGray), bg: None, bold: false, dim: false },
            },
        ) + bindings_line(seq![binding]),
{
    let one = seq![binding];
    assert(one.drop_last() =~= Seq::empty());
    assert(bindings_line(one.drop_last()) =~= Seq::empty());
    if bindings.len() > 0 {
        let all = bindings.push(binding);
        assert(all.drop_last() =~= bindings);
        assert(bindings_line(all) =~= bindings_line(bindings).push(
            SpanView { text: " | "@, style: color_style(Color::DarkGray) },
        ) + bindings_line(one));
    }
}

/// The line of bindings is drawn in its area, in the middle, and does not scroll.
pub proof fn bindings_are_drawn_in_the_middle(bindings: Seq<(Text, Text)>, area: Rect)
    ensures
        bindings_piece(bindings, area) == (PieceView::Paragraph {
            area,
            content: ContentView::Lines(seq![TextLineView::Spans(bindings_line(bindings))]),
            style: plain_style(),
            alignment: Alignment::Center,
            scroll: 0,
        }),
{
}

/// A list with the focus stands out: a blue border and a bright row. One without it is dim.
pub proof fn focus_stands_out()
    ensures
        border_style(true).fg == Some(Color::Blue) && !border_style(true).dim,
        border_style(false).fg == Some(Color::DarkGray) && border_style(false).dim,
        border_style(true).bg is None && border_style(false).bg is None,
        !border_style(true).bold && !border_style(false).bold,
        highlight_style(true) == (Style {
            fg: Some(Color::Black),
            bg: Some(Color::Gray),
            bold: true,
            dim: false,
        }),
        highlight_style(false) == (Style {
            fg: Some(Color::Gray),
            bg: Some(Color::Black),
            bold: false,
            dim: true,
        }),
{
}

/// The inside of a frame is what the border leaves, and the room at both sides.
pub proof fn inside_is_what_the_border_leaves(area: Rect, padding: u16)
    requires
        area.width >= 2 + 2 * padding,
        area.height >= 2,
        area.x + area.width <= u16::MAX,
        area.y + area.height <= u16::MAX,
    ensures
        inside(area, padding).x == area.x + 1 + padding,
        inside(area, padding).y == area.y + 1,
        inside(area, padding).width == area.width - 2 - 2 * padding,
        inside(area, padding).height == area.height - 2,
        lies_within(inside(area, padding), area),
{
}

/// A list is drawn as a frame with its title, its header if it has one, its items with the
/// item selected, and, if it has the focus, its bindings. Nothing of it is left out, and each
/// is in a section of its own.
pub proof fn list_is_drawn_whole(list: ListModel, focused: bool, area: Rect, sections: Seq<Rect>)
    requires
        sections.len() == list_constraints(list.header is Some).len(),
    ensures
        ({
            let drawn = list.scene(focused, area, sections);
            let n = sections.len() as int;
            let at = if list.header is Some {
                2int
            } else {
                1int
            };
            &&& n == at + 1
            &&& drawn.len() == at + 1 + (if focused {
                1int
            } else {
                0
            })
            &&& drawn[0] == (PieceView::Frame {
                area,
                title: list.title,
                border: border_style(focused),
            })
            &&& list.header is Some ==> drawn[1] == (PieceView::Paragraph {
                area: sections[0],
                content: ContentView::Lines(
                    seq![
                        TextLineView::Spans(
                            seq![SpanView { text: list.header->0, style: bold_style() }],
                        ),
                    ],
                ),
                style: plain_style(),
                alignment: Alignment::Left,
                scroll: 0,
            })
            &&& drawn[at] == (PieceView::List {
                area: sections[n - 2],
                items: list.items,
                selection: list.selection,
                highlight: highlight_style(focused),
            })
            &&& focused ==> drawn[at + 1] == bindings_piece(list.bindings, sections[n - 1])
        }),
{
}

/// The sections of a list: a line for its header, if it has one, the room for its items, and
/// a line for its bindings.
pub proof fn list_is_divided_into_lines(
    list: ListModel,
    focused: bool,
    area: Rect,
    after: ListModel,
    pieces: Seq<PieceView>,
) -> (sections: Seq<Rect>)
    requires
        list.drawn(focused, area, after, pieces),
    ensures
        list.header is Some ==> sections.len() == 3 && may_split(
            Direction::Vertical,
            seq![Constraint::Length(1), Constraint::Min(0), Constraint::Length(1)],
            inside(area, 1),
            sections,
        ),
        list.header is None ==> sections.len() == 2 && may_split(
            Direction::Vertical,
            seq![Constraint::Min(0), Constraint::Length(1)],
            inside(area, 1),
            sections,
        ),
        pieces == after.scene(focused, area, sections),
        after.selection == list.selection.painted(
            list.items.len(),
            sections[sections.len() - 2],
        ),
        after == (ListModel { selection: after.selection, ..list }),
{
    choose|sections: Seq<Rect>|
        {
            &&& #[trigger] may_split(
                Direction::Vertical,
                list_constraints(list.header is Some),
                inside(area, 1),
                sections,
            )
            &&& spans_across(
                Direction::Vertical,
                list_constraints(list.header is Some),
                inside(area, 1),
                sections,
            )
            &&& after == list.painted(sections[sections.len() - 2])
            &&& pieces == after.scene(focused, area, sections)
        }
}

/// The keys that move: a line by the arrows, `j` and `k`, a page by the page keys and by `d`
/// and `u` with control. No other key does.
pub proof fn keys_that_move(key: KeyEvent)
    ensures
        key_move(key) == Some(Move::Down) <==> key.code == KeyCode::Down || key.code
            == KeyCode::Char('j'),
        key_move(key) == Some(Move::Up) <==> key.code == KeyCode::Up || key.code == KeyCode::Char(
            'k',
        ),
        key_move(key) == Some(Move::PageDown) <==> key.code == KeyCode::PageDown || (key.code
            == KeyCode::Char('d') && key.control),
        key_move(key) == Some(Move::PageUp) <==> key.code == KeyCode::PageUp || (key.code
            == KeyCode::Char('u') && key.control),
{
}

/// A line moves the selection by one and a page by twenty, a page no further than the first
/// and the last item. Nothing but the selection changes, and what is first on the screen does
/// not.
pub proof fn selection_moves_by_lines_and_pages(list: ListModel, i: usize, by: Move)
    requires
        list.selection.selected == Some(i),
        list.items.len() <= usize::MAX,
    ensures
        list.moved(by) == (ListModel { selection: list.moved(by).selection, ..list }),
        list.moved(by).selection.offset == list.selection.offset,
        list.moved(by).selection.selected is Some,
        i < usize::MAX ==> list.moved(Move::Down).selection.selected == Some((i + 1) as usize),
        i == usize::MAX ==> list.moved(Move::Down).selection.selected == Some(i),
        list.moved(Move::Up).selection.selected == Some(
            (if i > 0 {
                i - 1
            } else {
                0
            }) as usize,
        ),
        list.items.len() > 0 && i + 20 < list.items.len() ==> list.moved(
            Move::PageDown,
        ).selection.selected == Some((i + 20) as usize),
        list.items.len() > 0 && i + 20 >= list.items.len() ==> list.moved(
            Move::PageDown,
        ).selection.selected == Some((list.items.len() - 1) as usize),
        list.moved(Move::PageUp).selection.selected == Some(
            (if i >= 20 {
                i - 20
            } else {
                0
            }) as usize,
        ),
{
}

/// Where nothing is selected, a line down leads to the first item, a line up past all of them,
/// and pages count from the first item.
pub proof fn selection_starts_at_the_first_item(list: ListModel)
    requires
        list.selection.selected is None,
        list.items.len() <= usize::MAX,
    ensures
        list.selection.index() == 0,
        list.moved(Move::Down).selection.selected == Some(0usize),
        list.moved(Move::Up).selection.selected == Some(usize::MAX),
        list.moved(Move::PageUp).selection.selected == Some(0usize),
        list.items.len() > 20 ==> list.moved(Move::PageDown).selection.selected == Some(20usize),
        0 < list.items.len() <= 20 ==> list.moved(Move::PageDown).selection.selected == Some(
            (list.items.len() - 1) as usize,
        ),
{
}

/// The items of a list are moved no further than it takes: an item above the screen comes to
/// its top, one below it to its bottom.
pub proof fn drawing_moves_no_further_than_it_takes(list: ListModel, area: Rect, i: usize)
    requires
        area.width > 0,
        area.height > 0,
        list.selection.selected == Some(i),
        i < list.items.len() <= usize::MAX,
        list.selection.offset < list.items.len(),
    ensures
        i < list.selection.offset ==> list.painted(area).selection.offset == i,
        i >= list.selection.offset + area.height ==> list.painted(area).selection.offset
            + area.height == i + 1,
{
}

/// The index selected is the one that is selected.
pub proof fn index_is_the_one_selected(selection: Selection, i: usize)
    requires
        selection.selected == Some(i),
    ensures
        selection.index() == i,
{
}

/// Only a page down may be too much for a list: if it has no item, or if there is no number
/// that far.
pub proof fn only_a_page_down_may_be_too_much(list: ListModel, key: KeyEvent)
    ensures
        list.can_move(key) <==> !((key.code == KeyCode::PageDown || (key.code == KeyCode::Char('d')
            && key.control)) && (list.items.len() == 0 || list.selection.index() + 20
            > usize::MAX)),
{
}

} // verus!
