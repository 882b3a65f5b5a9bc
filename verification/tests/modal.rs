use bzlui::bazel::{DetailUpdate, RunUpdate};
use bzlui::key::{KeyCode, KeyEvent, KeyEventKind};
use bzlui::list_view::Binding;
use bzlui::modal::{RuleContentModal, RuleText, RunOutputModal, RunStatus};
use bzlui::scene::{colored, plain, Alignment, Color, Content, Piece, Rect, Span, TextLine};

fn key(code: KeyCode) -> KeyEvent {
    KeyEvent { code, control: false, kind: KeyEventKind::Press }
}

const AREA: Rect = Rect { x: 0, y: 0, width: 30, height: 13 };

fn body(pieces: &[Piece]) -> (Rect, &Content, Alignment, u16) {
    match &pieces[1] {
        Piece::Paragraph { area, content, alignment, scroll, .. } => {
            (*area, content, *alignment, *scroll)
        }
        _ => panic!("no paragraph"),
    }
}

fn lines(content: &Content) -> Vec<&Span> {
    match content {
        Content::Lines(lines) => lines
            .iter()
            .map(|line| match line {
                TextLine::Styled(span) => span,
                TextLine::Spans(_) => panic!("spans"),
            })
            .collect(),
        Content::Raw(_) => panic!("raw text"),
    }
}

fn output(count: usize) -> RunOutputModal {
    let mut modal = RunOutputModal::new("Build //a:b".to_string());
    for i in 0..count {
        modal.apply_update(RunUpdate::Line(format!("line {i}")));
    }
    modal
}

#[test]
fn bindings_follow_what_is_known() {
    let build: Binding = ("b", "Build");
    let close: Binding = ("q", "Close");
    let mut modal = RuleContentModal::new();
    assert_eq!(modal.bindings, vec![build, close]);
    modal.apply_update(DetailUpdate::Testable(true));
    assert_eq!(modal.bindings, vec![build, ("t", "Test"), close]);
    modal.apply_update(DetailUpdate::Runnable(true));
    assert_eq!(modal.bindings, vec![build, ("r", "Run"), ("t", "Test"), close]);
    modal.apply_update(DetailUpdate::Testable(false));
    assert_eq!(modal.bindings, vec![build, ("r", "Run"), close]);
    assert_eq!((modal.is_runnable, modal.is_testable), (Some(true), Some(false)));
}

#[test]
fn definition_is_drawn() {
    let mut modal = RuleContentModal::new();
    let pieces = modal.render(AREA);
    assert!(matches!(&pieces[0], Piece::Frame { area, title, border }
        if *area == AREA && title == "Rule Detail" && *border == colored(Color::Blue)));
    assert!(matches!(body(&pieces), (_, Content::Raw(s), Alignment::Center, 0) if s == "Loading…"));
    assert!(matches!(&pieces[1], Piece::Paragraph { style, .. }
        if *style == colored(Color::DarkGray)));
    modal.apply_update(DetailUpdate::Text(Ok("x = 1".to_string())));
    assert!(matches!(&modal.text, RuleText::Loaded(s) if s == "x = 1"));
    let pieces = modal.render(AREA);
    assert!(matches!(body(&pieces), (_, Content::Raw(s), Alignment::Left, 0) if s == "x = 1"));
    modal.apply_update(DetailUpdate::Text(Err("oh".to_string())));
    assert!(matches!(&modal.text, RuleText::Error(s) if s == "oh"));
    let pieces = modal.render(AREA);
    assert!(matches!(&pieces[1], Piece::Paragraph { style, .. } if *style == colored(Color::Red)));
    assert_eq!(body(&pieces).0, Rect { x: 2, y: 1, width: 26, height: 10 });
    assert!(matches!(&pieces[2], Piece::Paragraph { area, .. }
        if *area == Rect { x: 2, y: 11, width: 26, height: 1 }));
    assert_eq!(pieces.len(), 3);
}

#[test]
fn answers_commute() {
    let make = |first: bool| {
        let mut modal = RuleContentModal::new();
        if first {
            modal.apply_update(DetailUpdate::Runnable(true));
            modal.apply_update(DetailUpdate::Testable(true));
        } else {
            modal.apply_update(DetailUpdate::Testable(true));
            modal.apply_update(DetailUpdate::Runnable(true));
        }
        modal.bindings
    };
    assert_eq!(make(true), make(false));
}

#[test]
fn output_is_kept_in_order() {
    let mut modal = output(3);
    assert_eq!(modal.title, "Build //a:b");
    assert_eq!(modal.lines, vec!["line 0", "line 1", "line 2"]);
    assert!(matches!(modal.status, RunStatus::Running));
    modal.apply_update(RunUpdate::Exited(Some(1)));
    assert!(matches!(modal.status, RunStatus::Exited(Some(1))));
    assert!(modal.follow_tail);
    assert_eq!(modal.scroll, 0);
}

#[test]
fn last_line_tells_how_the_command_ended() {
    for (update, text, color) in [
        (RunUpdate::Exited(Some(0)), "--- exited (0) ---", Color::Green),
        (RunUpdate::Exited(Some(-37)), "--- exited (-37) ---", Color::Red),
        (RunUpdate::Exited(None), "--- exited ---", Color::Yellow),
        (RunUpdate::SpawnFailed("no".to_string()), "--- failed to spawn: no ---", Color::Red),
    ] {
        let mut modal = output(1);
        modal.apply_update(update);
        let pieces = modal.render(AREA);
        let spans = lines(body(&pieces).1);
        assert_eq!(spans.len(), 2);
        assert_eq!((spans[0].text.as_str(), spans[0].style), ("line 0", plain()));
        assert_eq!((spans[1].text.as_str(), spans[1].style), (text, colored(color)));
    }
    let mut running = output(1);
    let pieces = running.render(AREA);
    assert_eq!(lines(body(&pieces).1).len(), 1);
}

#[test]
fn tail_is_followed_until_scrolled() {
    let mut modal = output(25);
    modal.render(AREA);
    assert_eq!(modal.scroll, 15);
    modal.apply_update(RunUpdate::Line("more".to_string()));
    modal.render(AREA);
    assert_eq!(modal.scroll, 16);
    assert!(modal.handle_key(key(KeyCode::Up)));
    assert!(!modal.follow_tail);
    assert_eq!(modal.scroll, 15);
    modal.apply_update(RunUpdate::Line("and more".to_string()));
    modal.render(AREA);
    assert_eq!(modal.scroll, 15);
    assert!(modal.handle_key(key(KeyCode::PageUp)));
    assert_eq!(modal.scroll, 0);
    assert!(modal.handle_key(key(KeyCode::Char('k'))));
    assert_eq!(modal.scroll, 0);
    assert!(modal.handle_key(key(KeyCode::PageDown)));
    assert_eq!(modal.scroll, 20);
    modal.render(AREA);
    assert_eq!(modal.scroll, 17);
    assert!(modal.handle_key(key(KeyCode::PageDown)));
    assert_eq!(modal.scroll, 26);
    assert!(modal.handle_key(key(KeyCode::Char('j'))));
    assert_eq!(modal.scroll, 26);
    assert!(modal.handle_key(key(KeyCode::Char('G'))));
    assert!(modal.follow_tail);
    modal.render(AREA);
    assert_eq!(modal.scroll, 17);
    assert!(!modal.handle_key(key(KeyCode::Enter)));
}

#[test]
fn new_output_moves_only_the_tail() {
    let sections = vec![
        Rect { x: 0, y: 0, width: 9, height: 5 },
        Rect { x: 0, y: 5, width: 9, height: 1 },
    ];
    let mut modal = output(3);
    for scroll in [0, 0, 0, 1, 2] {
        modal.draw(AREA, &sections);
        assert_eq!(modal.scroll, scroll);
        modal.apply_update(RunUpdate::Line("more".to_string()));
    }
    modal.draw(AREA, &sections);
    assert!(modal.handle_key(key(KeyCode::Up)));
    assert_eq!(modal.scroll, 2);
    for update in [RunUpdate::Line("more".to_string()), RunUpdate::Exited(None)] {
        modal.draw(AREA, &sections);
        modal.apply_update(update);
        modal.draw(AREA, &sections);
        assert_eq!((modal.scroll, modal.follow_tail), (2, false));
    }
}

#[test]
fn short_output_does_not_scroll() {
    let mut modal = output(0);
    assert!(modal.handle_key(key(KeyCode::Down)));
    assert_eq!(modal.scroll, 0);
    modal.render(AREA);
    assert_eq!(modal.scroll, 0);
}

#[test]
fn scrolling_counts_lines_in_sixteen_bits() {
    let mut modal = output(65540);
    assert!(modal.handle_key(key(KeyCode::PageDown)));
    assert_eq!(modal.scroll, 3);
    modal.follow_tail = true;
    let sections = vec![
        Rect { x: 0, y: 0, width: 9, height: 1 },
        Rect { x: 0, y: 1, width: 9, height: 1 },
    ];
    let pieces = modal.draw(AREA, &sections);
    assert_eq!(modal.scroll, 3);
    assert_eq!(body(&pieces).3, 3);
}
