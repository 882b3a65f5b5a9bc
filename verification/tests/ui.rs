use std::path::PathBuf;

use bzlui::app::AppState;
use bzlui::bazel::{parse_workspace, DetailUpdate, Rule, RunUpdate};
use bzlui::key::{KeyCode, KeyEvent, KeyEventKind};
use bzlui::scene::{
    bold, bold_colored, colored, plain, Alignment, Color, Content, Piece, Rect, Selection,
    ViewId,
};
use bzlui::ui::{Action, KeyOutcome, LoopStep, MainView, Modal, ModalUpdate, UpdateSource};

const LISTING: &str = "go_library rule //a:lib
go_binary rule //a:bin
go_library rule //a/x:x
sh rule //b:b
sh rule //:root";

const SCREEN: Rect = Rect { x: 0, y: 0, width: 100, height: 43 };

fn browser() -> AppState {
    AppState::new(parse_workspace(LISTING), PathBuf::from("/ws"))
}

fn key(code: KeyCode) -> KeyEvent {
    KeyEvent { code, control: false, kind: KeyEventKind::Press }
}

fn char_key(c: char) -> KeyEvent {
    key(KeyCode::Char(c))
}

fn press(view: &mut MainView<'_>, code: KeyCode) -> KeyOutcome {
    view.handle_key(key(code))
}

fn handled(view: &mut MainView<'_>, code: KeyCode) {
    let outcome = press(view, code);
    assert!(outcome.handled);
    assert!(matches!(outcome.action, Action::Nothing));
}

#[test]
fn screen_at_the_start() {
    let mut app = browser();
    let view = MainView::new(&mut app);
    assert_eq!(view.active_view_id, ViewId::Packages);
    assert!(!view.modal_open);
    assert!(view.modals.is_empty());
    assert_eq!(view.packages_view.title, "1: Packages");
    assert_eq!(view.packages_view.header.as_deref(), Some("//"));
    assert_eq!(view.packages_view.list_items.len(), 2);
    assert_eq!(view.packages_view.selected(), 0);
    assert_eq!(view.rules_view.title, "2: Rules");
    assert_eq!(view.rules_view.header, None);
    assert_eq!(view.rules_view.list_items.len(), 1);
    assert_eq!(view.packages_view.bindings.len(), 5);
    assert_eq!(view.packages_view.bindings[2], ("u", "Go to Parent"));
    assert_eq!(view.rules_view.bindings[1], ("Enter", "View Rule"));
    assert_eq!(view.next_modal_update(), None);
}

#[test]
fn branches_of_packages() {
    let items = MainView::packages_items(&vec!["a".to_string(), "b".to_string()]);
    assert_eq!(items[0][0].text, "├── ");
    assert_eq!(items[0][0].style, colored(Color::DarkGray));
    assert_eq!((items[0][1].text.as_str(), items[0][1].style), ("a", plain()));
    assert_eq!(items[1][0].text, "└── ");
    assert!(MainView::packages_items(&Vec::new()).is_empty());
}

#[test]
fn columns_of_rules() {
    let rule = |rule_type: &str, name: &str| Rule {
        name: name.to_string(),
        rule_type: rule_type.to_string(),
    };
    let items = MainView::rules_items(&vec![rule("sh", "one"), rule("größe", "two")]);
    assert_eq!(items[0][0].text, "     sh");
    assert_eq!(items[0][0].style, bold_colored(Color::Blue));
    assert_eq!((items[0][1].text.as_str(), items[0][1].style), (" one", plain()));
    assert_eq!(items[1][0].text, "  größe");
}

#[test]
fn focus_switches() {
    let mut app = browser();
    let mut view = MainView::new(&mut app);
    for (code, active) in [
        (KeyCode::Char('2'), ViewId::Rules),
        (KeyCode::Char('1'), ViewId::Packages),
        (KeyCode::Char('l'), ViewId::Rules),
        (KeyCode::Char('h'), ViewId::Packages),
        (KeyCode::Tab, ViewId::Rules),
        (KeyCode::Tab, ViewId::Packages),
    ] {
        handled(&mut view, code);
        assert_eq!(view.active_view_id, active);
        assert!(view.is_active(active));
    }
    assert!(!view.is_active(ViewId::Rules));
}

#[test]
fn browsing_with_keys() {
    let mut app = browser();
    let mut view = MainView::new(&mut app);
    handled(&mut view, KeyCode::Enter);
    assert_eq!(view.packages_view.header.as_deref(), Some("//a"));
    assert_eq!(view.active_view_id, ViewId::Packages);
    assert_eq!(view.rules_view.list_items.len(), 2);
    handled(&mut view, KeyCode::Enter);
    assert_eq!(view.packages_view.header.as_deref(), Some("//a/x"));
    assert_eq!(view.active_view_id, ViewId::Rules);
    assert!(view.packages_view.list_items.is_empty());
    assert!(!press(&mut view, KeyCode::Char('u')).handled);
    handled(&mut view, KeyCode::Tab);
    handled(&mut view, KeyCode::Char('u'));
    assert_eq!(view.packages_view.header.as_deref(), Some("//a"));
    assert_eq!(view.active_view_id, ViewId::Packages);
    handled(&mut view, KeyCode::Char('u'));
    handled(&mut view, KeyCode::Char('u'));
    assert_eq!(view.packages_view.header.as_deref(), Some("//"));
    handled(&mut view, KeyCode::Char('j'));
    handled(&mut view, KeyCode::Enter);
    assert_eq!(view.packages_view.header.as_deref(), Some("//b"));
    drop(view);
    assert_eq!(app.current_package(), "b");
}

#[test]
fn control_u_pages_up() {
    let mut app = browser();
    let mut view = MainView::new(&mut app);
    handled(&mut view, KeyCode::Enter);
    let outcome = view.handle_key(KeyEvent { control: true, ..char_key('u') });
    assert!(outcome.handled);
    assert_eq!(view.packages_view.header.as_deref(), Some("//a"));
}

#[test]
fn rule_is_shown_and_run() {
    let mut app = browser();
    let mut view = MainView::new(&mut app);
    handled(&mut view, KeyCode::Enter);
    handled(&mut view, KeyCode::Tab);
    handled(&mut view, KeyCode::Down);
    let outcome = press(&mut view, KeyCode::Enter);
    let Action::QueryRule(queries) = outcome.action else { panic!("no queries") };
    assert_eq!(queries.text.args, vec!["query", "//a:bin", "--output", "build"]);
    assert!(view.modal_open);
    assert!(!view.is_active(ViewId::Rules));
    assert_eq!(view.next_modal_update(), Some(UpdateSource::Detail));

    assert!(!press(&mut view, KeyCode::Char('r')).handled);
    assert!(!press(&mut view, KeyCode::Char('t')).handled);
    assert!(!press(&mut view, KeyCode::Tab).handled);
    view.apply_modal_update(ModalUpdate::Detail(DetailUpdate::Runnable(true)));
    view.apply_modal_update(ModalUpdate::Run(RunUpdate::Line("lost".to_string())));
    assert!(!press(&mut view, KeyCode::Char('t')).handled);
    let outcome = press(&mut view, KeyCode::Char('r'));
    assert!(outcome.handled);
    let Action::RunCommand(invocation) = outcome.action else { panic!("no command") };
    assert_eq!(invocation.args, vec!["run", "//a:bin"]);
    assert_eq!(invocation.workspace_dir, PathBuf::from("/ws"));
    assert_eq!(view.modals.len(), 2);
    assert_eq!(view.next_modal_update(), Some(UpdateSource::Run));
    view.apply_modal_update(ModalUpdate::Run(RunUpdate::Line("hello".to_string())));
    view.apply_modal_update(ModalUpdate::Detail(DetailUpdate::Testable(true)));
    assert!(matches!(&view.modals[1], Modal::RunOutput(m)
        if m.title == "Run //a:bin" && m.lines == vec!["hello"]));
    handled(&mut view, KeyCode::Char('G'));
    assert!(!press(&mut view, KeyCode::Char('x')).handled);

    assert!(matches!(press(&mut view, KeyCode::Char('q')).action, Action::CloseModal));
    assert_eq!(view.modals.len(), 1);
    assert!(view.modal_open);
    assert!(matches!(&view.modals[0], Modal::RuleDetail(m) if m.is_testable.is_none()));
    assert!(matches!(press(&mut view, KeyCode::Char('q')).action, Action::CloseModal));
    assert!(!view.modal_open);
    assert!(view.is_active(ViewId::Rules));
    assert!(!press(&mut view, KeyCode::Char('q')).handled);
}

#[test]
fn building_and_testing() {
    let mut app = browser();
    let mut view = MainView::new(&mut app);
    handled(&mut view, KeyCode::Tab);
    press(&mut view, KeyCode::Enter);
    let outcome = press(&mut view, KeyCode::Char('b'));
    let Action::RunCommand(invocation) = outcome.action else { panic!("no command") };
    assert_eq!(invocation.args, vec!["build", "//:root"]);
    press(&mut view, KeyCode::Char('q'));
    view.apply_modal_update(ModalUpdate::Detail(DetailUpdate::Testable(true)));
    let outcome = press(&mut view, KeyCode::Char('t'));
    let Action::RunCommand(invocation) = outcome.action else { panic!("no command") };
    assert_eq!(invocation.args, vec!["test", "//:root"]);
}

#[test]
fn no_rule_no_window() {
    let mut app = AppState::new(parse_workspace("x rule //a/b:c"), PathBuf::new());
    let mut view = MainView::new(&mut app);
    handled(&mut view, KeyCode::Tab);
    handled(&mut view, KeyCode::Enter);
    assert!(view.modals.is_empty());
}

#[test]
fn page_down_in_an_empty_list_is_refused() {
    let mut app = browser();
    let mut view = MainView::new(&mut app);
    handled(&mut view, KeyCode::Enter);
    handled(&mut view, KeyCode::Enter);
    handled(&mut view, KeyCode::Tab);
    assert!(!view.accepts_key(key(KeyCode::PageDown)));
    assert!(matches!(view.handle_event(key(KeyCode::PageDown)), LoopStep::NoItem));
    assert!(matches!(
        view.handle_event(KeyEvent { kind: KeyEventKind::Release, ..key(KeyCode::PageDown) }),
        LoopStep::Continue(Action::Nothing)
    ));
    assert_eq!(view.packages_view.selection, Selection { offset: 0, selected: Some(0) });
    assert!(view.accepts_key(key(KeyCode::PageUp)));
    handled(&mut view, KeyCode::Tab);
    assert!(view.accepts_key(key(KeyCode::PageDown)));
    press(&mut view, KeyCode::Enter);
    assert!(view.accepts_key(key(KeyCode::PageDown)));
}

#[test]
fn quitting() {
    let mut app = browser();
    let mut view = MainView::new(&mut app);
    assert!(matches!(
        view.handle_event(KeyEvent { kind: KeyEventKind::Release, ..char_key('q') }),
        LoopStep::Continue(Action::Nothing)
    ));
    view.handle_event(KeyEvent { kind: KeyEventKind::Repeat, ..key(KeyCode::Tab) });
    assert_eq!(view.active_view_id, ViewId::Packages);
    view.handle_event(key(KeyCode::Tab));
    assert_eq!(view.active_view_id, ViewId::Rules);
    assert!(matches!(
        view.handle_event(key(KeyCode::Enter)),
        LoopStep::Continue(Action::QueryRule(_))
    ));
    assert!(matches!(
        view.handle_event(char_key('q')),
        LoopStep::Continue(Action::CloseModal)
    ));
    assert!(matches!(
        view.handle_event(char_key('z')),
        LoopStep::Continue(Action::Nothing)
    ));
    assert!(matches!(view.handle_event(char_key('q')), LoopStep::Quit));
}

#[test]
fn drawing_brings_the_selection_back() {
    let mut app = browser();
    let mut view = MainView::new(&mut app);
    for _ in 0..5 {
        handled(&mut view, KeyCode::Down);
    }
    assert_eq!(view.packages_view.selected(), 5);
    view.render(SCREEN);
    assert_eq!(view.packages_view.selection, Selection { offset: 0, selected: Some(1) });
    assert_eq!(view.rules_view.selection, Selection { offset: 0, selected: Some(0) });
    handled(&mut view, KeyCode::Enter);
    assert_eq!(view.app.current_prefix(), vec!["", "b"]);
    view.render(SCREEN);
    assert_eq!(view.packages_view.selection, Selection { offset: 0, selected: None });
}

#[test]
fn middle_of_an_area() {
    let window = MainView::centered_rect(80, 80, SCREEN);
    assert_eq!(window, Rect { x: 10, y: 4, width: 80, height: 35 });
    let area = Rect { x: 5, y: 7, width: 10, height: 10 };
    assert_eq!(MainView::centered_rect(100, 100, area), area);
}

#[test]
fn middle_lies_within_its_container() {
    let containers = [
        SCREEN,
        Rect { x: 3, y: 9, width: 0, height: 0 },
        Rect { x: 7, y: 1, width: 1, height: 2 },
        Rect { x: 65530, y: 65000, width: 5, height: 535 },
        Rect { x: 65530, y: 65000, width: 60000, height: 60000 },
        Rect { x: 0, y: 0, width: u16::MAX, height: u16::MAX },
    ];
    for container in containers {
        for percent_x in 0..=100 {
            let percent_y = 100 - percent_x;
            let r = MainView::centered_rect(percent_x, percent_y, container);
            let end = |start: u16, length: u16| u32::from(start) + u32::from(length);
            assert!(container.x <= r.x && container.y <= r.y);
            assert!(end(r.x, r.width) <= end(container.x, container.width));
            assert!(end(r.y, r.height) <= end(container.y, container.height));
        }
    }
}

#[test]
fn lists_take_turns() {
    let app = browser();
    let (packages, rules) = MainView::build_views(&app);
    assert_eq!((packages.title, packages.list_items.len()), ("1: Packages", 2));
    assert_eq!((rules.title, rules.list_items.len()), ("2: Rules", 1));
    for active in [ViewId::Packages, ViewId::Rules] {
        assert_eq!(packages.is_active(active, false), active == ViewId::Packages);
        assert_eq!(rules.is_active(active, false), active == ViewId::Rules);
        assert!(!packages.is_active(active, true));
        assert!(!rules.is_active(active, true));
    }
}

#[test]
fn footer_tells_which_keys_are_handled() {
    for (runnable, testable) in [(false, false), (true, false), (false, true), (true, true)] {
        for c in ['b', 'r', 't', 'q', 'x', 'j', 'G'] {
            let mut app = browser();
            let mut view = MainView::new(&mut app);
            handled(&mut view, KeyCode::Tab);
            press(&mut view, KeyCode::Enter);
            for update in [DetailUpdate::Runnable(runnable), DetailUpdate::Testable(testable)] {
                view.apply_modal_update(ModalUpdate::Detail(update));
            }
            let Modal::RuleDetail(modal) = &view.modals[0] else { panic!("no window of a rule") };
            let told = modal.bindings.iter().any(|b| b.0 == c.to_string());
            assert_eq!(view.handle_modal_key(char_key(c)).handled, told);
        }
    }
}

#[test]
fn unhandled_key_changes_nothing() {
    let mut app = browser();
    let mut view = MainView::new(&mut app);
    for code in [KeyCode::Char('z'), KeyCode::Char('q'), KeyCode::Other] {
        let outcome = press(&mut view, code);
        assert!(!outcome.handled && matches!(outcome.action, Action::Nothing));
        assert_eq!(view.active_view_id, ViewId::Packages);
        assert_eq!(view.packages_view.selection, Selection { offset: 0, selected: Some(0) });
        assert_eq!(view.app.children, vec!["a", "b"]);
        assert!(view.modals.is_empty() && !view.modal_open);
    }
    handled(&mut view, KeyCode::Tab);
    press(&mut view, KeyCode::Enter);
    assert!(view.modal_open && view.modals.len() == 1);
    assert!(!press(&mut view, KeyCode::Char('r')).handled);
    assert!(view.modal_open && view.modals.len() == 1);
}

#[test]
fn screen_is_drawn() {
    let mut app = browser();
    let mut view = MainView::new(&mut app);
    let pieces = view.render(SCREEN);
    let Piece::Boxed { area, content: Content::Raw(title), style, alignment } = &pieces[0] else {
        panic!("no title");
    };
    assert_eq!(*area, Rect { x: 0, y: 0, width: 100, height: 3 });
    assert_eq!((title.as_str(), *style, *alignment), ("bzlui - //", bold(), Alignment::Left));
    assert!(matches!(&pieces[1], Piece::Frame { area, title, .. }
        if *area == Rect { x: 0, y: 3, width: 30, height: 40 } && title == "1: Packages"));
    assert!(matches!(&pieces[4], Piece::Paragraph { .. }));
    assert!(matches!(&pieces[5], Piece::Frame { area, title, .. }
        if *area == Rect { x: 30, y: 3, width: 70, height: 40 } && title == "2: Rules"));
    assert_eq!(pieces.len(), 7);
}

#[test]
fn window_is_drawn_over_the_lists() {
    let mut app = browser();
    let mut view = MainView::new(&mut app);
    handled(&mut view, KeyCode::Tab);
    press(&mut view, KeyCode::Enter);
    let pieces = view.render(SCREEN);
    let window = Rect { x: 10, y: 7, width: 80, height: 32 };
    let n = pieces.len();
    assert!(matches!(&pieces[n - 4], Piece::Clear { area } if *area == window));
    assert!(matches!(&pieces[n - 3], Piece::Frame { area, title, .. }
        if *area == window && title == "Rule Detail"));
    press(&mut view, KeyCode::Char('b'));
    for i in 0..60 {
        view.apply_modal_update(ModalUpdate::Run(RunUpdate::Line(format!("{i}"))));
    }
    let pieces = view.render(SCREEN);
    assert!(matches!(&pieces[pieces.len() - 2], Piece::Paragraph { scroll: 31, .. }));
    assert!(matches!(&view.modals[1], Modal::RunOutput(m) if m.scroll == 31));
}
