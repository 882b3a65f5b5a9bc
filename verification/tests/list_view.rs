use bzlui::key::{KeyCode, KeyEvent, KeyEventKind};
use bzlui::list_view::{move_of, render_bindings_line, ListView, Move};
use bzlui::scene::{
    bold, bold_colored, colored, plain, Alignment, Color, Content, Piece, Rect, Selection, Span,
    Style, TextLine, ViewId,
};
use ratatui::buffer::Buffer;
use ratatui::layout;
use ratatui::text::Line;
use ratatui::widgets::{List, ListItem, ListState, StatefulWidget};

fn key(code: KeyCode) -> KeyEvent {
    KeyEvent { code, control: false, kind: KeyEventKind::Press }
}

fn control(c: char) -> KeyEvent {
    KeyEvent { code: KeyCode::Char(c), control: true, kind: KeyEventKind::Press }
}

fn list(len: usize, selected: usize) -> ListView {
    let items = (0..len).map(|i| vec![Span { text: format!("item {i}"), style: plain() }]).collect();
    ListView::new(
        "Title",
        None,
        items,
        ViewId::Rules,
        vec![("k", "Key"), ("x", "Other")],
        selected,
    )
}

fn texts(spans: &[Span]) -> Vec<&str> {
    spans.iter().map(|s| s.text.as_str()).collect()
}

const AREA: Rect = Rect { x: 0, y: 0, width: 40, height: 12 };

#[test]
fn keys_that_move() {
    for (event, by) in [
        (key(KeyCode::Down), Some(Move::Down)),
        (key(KeyCode::Char('j')), Some(Move::Down)),
        (key(KeyCode::Up), Some(Move::Up)),
        (key(KeyCode::Char('k')), Some(Move::Up)),
        (key(KeyCode::PageDown), Some(Move::PageDown)),
        (control('d'), Some(Move::PageDown)),
        (key(KeyCode::PageUp), Some(Move::PageUp)),
        (control('u'), Some(Move::PageUp)),
        (control('j'), Some(Move::Down)),
        (key(KeyCode::Char('d')), None),
        (key(KeyCode::Char('u')), None),
        (key(KeyCode::Enter), None),
        (key(KeyCode::Other), None),
    ] {
        assert_eq!(move_of(event), by);
    }
}

#[test]
fn lines_and_pages() {
    let mut view = list(50, 10);
    assert!(view.handle_key(key(KeyCode::Down)));
    assert_eq!(view.selected(), 11);
    assert!(view.handle_key(key(KeyCode::Up)));
    assert_eq!(view.selected(), 10);
    assert!(view.handle_key(key(KeyCode::PageDown)));
    assert_eq!(view.selected(), 30);
    assert!(view.handle_key(control('d')));
    assert_eq!(view.selected(), 49);
    assert!(view.handle_key(control('u')));
    assert_eq!(view.selected(), 29);
    view.move_up_by(29);
    assert_eq!(view.selected(), 0);
    assert!(view.handle_key(key(KeyCode::PageUp)));
    assert_eq!(view.selected(), 0);
    view.move_down_by(7);
    assert_eq!(view.selected(), 7);
    assert!(!view.handle_key(key(KeyCode::Enter)));
    assert_eq!(view.selected(), 7);
}

#[test]
fn lines_do_not_stop_at_the_last_item() {
    let mut view = list(2, 1);
    view.move_down();
    assert_eq!(view.selection.selected, Some(2));
    view.selection = Selection { offset: 0, selected: Some(1) };
    assert_eq!(view.selected(), 1);
    view.selection = Selection { offset: 3, selected: None };
    assert_eq!(view.selected(), 0);
    view.move_up();
    assert_eq!(view.selection, Selection { offset: 3, selected: Some(usize::MAX) });
    view.move_down();
    assert_eq!(view.selection.selected, Some(usize::MAX));
    view.selection = Selection { offset: 3, selected: None };
    view.move_down();
    assert_eq!(view.selection, Selection { offset: 3, selected: Some(0) });
}

#[test]
fn moves_agree_with_the_list_state() {
    for selected in [None, Some(0), Some(5), Some(usize::MAX)] {
        let mut view = list(9, 0);
        view.selection = Selection { offset: 2, selected };
        let mut state = ListState::default().with_offset(2).with_selected(selected);
        view.move_down();
        state.select_next();
        assert_eq!(view.selection.selected, state.selected());
        assert_eq!(view.selection.offset, state.offset());
        view.selection = Selection { offset: 2, selected };
        state.select(selected);
        view.move_up();
        state.select_previous();
        assert_eq!(view.selection.selected, state.selected());
    }
}

#[test]
fn page_down_needs_an_item_to_go_to() {
    assert!(!list(0, 0).accepts_key(key(KeyCode::PageDown)));
    assert!(!list(0, 0).accepts_key(control('d')));
    assert!(list(0, 0).accepts_key(key(KeyCode::PageUp)));
    assert!(list(0, 0).accepts_key(key(KeyCode::Down)));
    assert!(list(1, 0).accepts_key(key(KeyCode::PageDown)));
    assert!(!list(1, usize::MAX).accepts_key(key(KeyCode::PageDown)));
}

#[test]
fn line_of_bindings() {
    let piece = render_bindings_line(&vec![("a", "One"), ("b", "Two")], AREA);
    let Piece::Paragraph { area, content: Content::Lines(lines), style, alignment, scroll } = piece
    else {
        panic!("not a paragraph of lines");
    };
    assert_eq!((area, style, alignment, scroll), (AREA, plain(), Alignment::Center, 0));
    assert_eq!(lines.len(), 1);
    let TextLine::Spans(spans) = &lines[0] else { panic!("not spans") };
    assert_eq!(texts(spans), vec!["a", ": One", " | ", "b", ": Two"]);
    assert_eq!(spans[0].style, bold_colored(Color::Blue));
    assert_eq!(spans[1].style, plain());
    assert_eq!(spans[2].style, colored(Color::DarkGray));
}

#[test]
fn focused_list_with_a_header() {
    let mut view = list(3, 0);
    view.header = Some("//x".to_string());
    let pieces = view.render(true, AREA);
    assert_eq!(pieces.len(), 4);
    assert!(matches!(&pieces[0], Piece::Frame { area, title, border }
        if *area == AREA && title == "Title" && *border == colored(Color::Blue)));
    let Piece::Paragraph { area, content: Content::Lines(lines), .. } = &pieces[1] else {
        panic!("no header");
    };
    assert_eq!(*area, Rect { x: 2, y: 1, width: 36, height: 1 });
    assert!(matches!(&lines[0], TextLine::Spans(s) if s[0].text == "//x" && s[0].style == bold()));
    let Piece::List { area, items, selection, highlight } = &pieces[2] else {
        panic!("no list");
    };
    assert_eq!(*area, Rect { x: 2, y: 2, width: 36, height: 8 });
    assert_eq!(*selection, Selection { offset: 0, selected: Some(0) });
    assert_eq!(items.len(), 3);
    assert_eq!(items[2][0].text, "item 2");
    let expected =
        Style { fg: Some(Color::Black), bg: Some(Color::Gray), bold: true, dim: false };
    assert_eq!(*highlight, expected);
    assert!(matches!(&pieces[3], Piece::Paragraph { area, .. }
        if *area == Rect { x: 2, y: 10, width: 36, height: 1 }));
}

#[test]
fn list_without_focus_or_header() {
    let pieces = list(1, 0).render(false, AREA);
    assert_eq!(pieces.len(), 2);
    let dim = Style { fg: Some(Color::DarkGray), bg: None, bold: false, dim: true };
    assert!(matches!(&pieces[0], Piece::Frame { border, .. } if *border == dim));
    let expected =
        Style { fg: Some(Color::Gray), bg: Some(Color::Black), bold: false, dim: true };
    assert!(matches!(&pieces[1], Piece::List { area, highlight, .. }
        if *area == Rect { x: 2, y: 1, width: 36, height: 9 } && *highlight == expected));
}

#[test]
fn sections_are_drawn_where_they_are() {
    let sections = vec![
        Rect { x: 9, y: 9, width: 1, height: 2 },
        Rect { x: 8, y: 8, width: 3, height: 4 },
    ];
    let pieces = list(1, 0).draw(true, AREA, &sections);
    assert!(matches!(&pieces[1], Piece::List { area, .. } if *area == sections[0]));
    assert!(matches!(&pieces[2], Piece::Paragraph { area, .. } if *area == sections[1]));
}

#[test]
fn focus_is_that_of_the_active_list() {
    let view = list(1, 0);
    assert!(view.is_active(ViewId::Rules, false));
    assert!(!view.is_active(ViewId::Packages, false));
    assert!(!view.is_active(ViewId::Rules, true));
    assert!(!view.is_active(ViewId::Packages, true));
}

/// The selection of a list of `len` items after it is drawn with its items in `room`.
fn drawn(len: usize, selection: Selection, room: Rect) -> Selection {
    let mut view = list(len, 0);
    view.selection = selection;
    let footer = Rect { x: 0, y: 0, width: 1, height: 1 };
    let pieces = view.draw(false, AREA, &vec![room, footer]);
    let Piece::List { area, items, selection, .. } = &pieces[1] else { panic!("no list") };
    assert_eq!((*area, items.len(), *selection), (room, len, view.selection));
    view.selection
}

#[test]
fn drawing_leaves_the_state_of_the_list_widget() {
    for len in 0..7 {
        let choices = [None, Some(0), Some(1), Some(3), Some(5), Some(6), Some(usize::MAX)];
        for (selected, offset) in
            choices.iter().flat_map(|s| [0, 1, 2, 4, 6, 9, usize::MAX].map(|o| (*s, o)))
        {
            for (width, height) in [(8, 0), (0, 3), (8, 1), (8, 2), (3, 3), (8, 9)] {
                let area = layout::Rect { x: 2, y: 5, width, height };
                let items: Vec<ListItem> =
                    (0..len).map(|i| ListItem::new(Line::from(format!("item {i}")))).collect();
                let mut state = ListState::default().with_offset(offset).with_selected(selected);
                let mut buffer = Buffer::empty(layout::Rect { x: 0, y: 0, width: 20, height: 20 });
                StatefulWidget::render(List::new(items), area, &mut buffer, &mut state);
                let after = drawn(
                    len,
                    Selection { offset, selected },
                    Rect { x: 2, y: 5, width, height },
                );
                assert_eq!((after.offset, after.selected), (state.offset(), state.selected()));
            }
        }
    }
}

#[test]
fn drawing_selects_an_item() {
    let room = Rect { x: 1, y: 65535, width: 9, height: 4 };
    let at = |offset: usize, selected: Option<usize>| Selection { offset, selected };
    assert_eq!(drawn(10, at(0, Some(10)), room), at(6, Some(9)));
    assert_eq!(drawn(10, at(0, Some(4)), room), at(1, Some(4)));
    assert_eq!(drawn(10, at(7, Some(4)), room), at(4, Some(4)));
    assert_eq!(drawn(10, at(3, Some(6)), room), at(3, Some(6)));
    assert_eq!(drawn(10, at(12, None), room), at(9, None));
    assert_eq!(drawn(0, at(3, Some(2)), room), at(0, None));
    let no_room = Rect { height: 0, ..room };
    assert_eq!(drawn(10, at(3, Some(99)), no_room), at(3, Some(99)));
    let settled = drawn(10, at(0, Some(usize::MAX)), room);
    assert_eq!(drawn(10, settled, room), settled);
}

#[test]
fn items_with_line_breaks_are_one_line() {
    let mut view = list(3, 2);
    for item in view.list_items.iter_mut() {
        item[0].text = "a\nb\nc".to_string();
    }
    let room = Rect { x: 0, y: 0, width: 9, height: 2 };
    view.draw(true, AREA, &vec![room, room]);
    assert_eq!(view.selection, Selection { offset: 1, selected: Some(2) });
}

#[test]
fn line_up_undoes_line_down() {
    let mut view = list(4, 2);
    view.move_down();
    view.move_up();
    assert_eq!(view.selection, Selection { offset: 0, selected: Some(2) });
}
