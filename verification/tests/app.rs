use std::path::PathBuf;

use bzlui::app::AppState;
use bzlui::bazel::{parse_workspace, BzlCommand, Rule};

const LISTING: &str = "genrule rule //:top
go_library rule //lib/zeta:z
go_library rule //lib/alpha:a
go_test rule //lib/alpha:a_test
go_library rule //lib/Beta:b
go_binary rule //cmd:run
go_library rule //lib/alpha/deep/deeper:d";

fn browser() -> AppState {
    AppState::new(parse_workspace(LISTING), PathBuf::from("/ws"))
}

fn names(app: &AppState) -> Vec<&str> {
    app.rules.iter().map(|r| r.name.as_str()).collect()
}

fn rules_of(app: &AppState) -> Vec<(String, String)> {
    app.rules.iter().map(|r| (r.rule_type.clone(), r.name.clone())).collect()
}

#[test]
fn root_is_the_first_place() {
    let app = browser();
    assert_eq!(app.positions.len(), 1);
    assert_eq!(app.current_prefix(), vec![""]);
    assert_eq!(app.current_package(), "");
    assert_eq!(app.children, vec!["cmd", "lib"]);
    assert_eq!(names(&app), vec!["top"]);
    assert_eq!(app.workspace_dir, PathBuf::from("/ws"));
}

#[test]
fn children_are_sorted_and_distinct() {
    let mut app = browser();
    app.enter_selected_package(1);
    assert_eq!(app.current_prefix(), vec!["", "lib"]);
    assert_eq!(app.children, vec!["Beta", "alpha", "zeta"]);
    assert!(app.rules.is_empty());
    app.enter_selected_package(1);
    assert_eq!(app.current_package(), "lib/alpha");
    assert_eq!(app.children, vec!["deep"]);
    assert_eq!(names(&app), vec!["a", "a_test"]);
}

#[test]
fn going_up_undoes_entering() {
    let mut app = browser();
    app.enter_selected_package(1);
    let children = app.children.clone();
    app.enter_selected_package(2);
    assert_eq!(names(&app), vec!["z"]);
    assert!(app.children.is_empty());
    app.go_up();
    assert_eq!(app.children, children);
    assert_eq!(app.current_prefix(), vec!["", "lib"]);
    app.go_up();
    assert_eq!(app.children, vec!["cmd", "lib"]);
    app.go_up();
    assert_eq!(app.children, vec!["cmd", "lib"]);
    assert_eq!(app.positions.len(), 1);
}

#[test]
fn entering_nothing_changes_nothing() {
    let mut app = browser();
    app.enter_selected_package(2);
    assert_eq!(app.positions.len(), 1);
    assert_eq!(app.children, vec!["cmd", "lib"]);
}

#[test]
fn stale_child_is_not_entered() {
    let mut app = browser();
    app.children = vec!["gone".to_string()];
    app.enter_selected_package(0);
    assert_eq!(app.positions.len(), 2);
    assert_eq!(app.current_prefix(), vec![""]);
    assert_eq!(app.children, vec!["cmd", "lib"]);
}

#[test]
fn without_positions_the_root_is_shown() {
    let mut app = browser();
    app.enter_selected_package(1);
    app.positions.clear();
    assert_eq!(app.current_prefix(), vec![""]);
    app.refresh_children();
    assert_eq!(app.children, vec!["cmd", "lib"]);
    assert_eq!(names(&app), vec!["top"]);
}

#[test]
fn empty_workspace_has_no_root() {
    let app = AppState::new(parse_workspace("nothing to see"), PathBuf::new());
    assert!(app.current_prefix().is_empty());
    assert!(app.children.is_empty());
    assert!(app.rules.is_empty());
}

#[test]
fn every_package_is_reached() {
    let mut app = browser();
    for component in ["lib", "alpha", "deep", "deeper"] {
        let i = app.children.iter().position(|c| c == component).unwrap();
        app.enter_selected_package(i);
    }
    assert_eq!(app.current_package(), "lib/alpha/deep/deeper");
    assert_eq!(names(&app), vec!["d"]);
}

#[test]
fn target_is_the_label_of_the_listing() {
    let mut app = browser();
    app.enter_selected_package(1);
    app.enter_selected_package(1);
    let queries = app.spawn_rule_detail(1).unwrap();
    assert_eq!(queries.text.args[1], "//lib/alpha:a_test");
    assert_eq!(queries.testable.args[1], "tests(//lib/alpha:a_test)");
    assert_eq!(queries.text.workspace_dir, PathBuf::from("/ws"));
    assert!(app.spawn_rule_detail(2).is_none());
    let rule = Rule { name: "other".to_string(), rule_type: "x".to_string() };
    let (invocation, target) = app.spawn_bzl_command(BzlCommand::Run, &rule);
    assert_eq!(target, "//lib/alpha:other");
    assert_eq!(invocation.args, vec!["run", "//lib/alpha:other"]);
    assert_eq!(invocation.workspace_dir, PathBuf::from("/ws"));
}

#[test]
fn target_at_the_root() {
    let app = browser();
    assert_eq!(app.spawn_rule_detail(0).unwrap().text.args[1], "//:top");
}

#[test]
fn packages_do_not_collide() {
    let listing = "a rule //x:one\na rule //x/:two\na rule ///x:three";
    let mut app = AppState::new(parse_workspace(listing), PathBuf::new());
    assert_eq!(app.children, vec!["", "x"]);
    app.enter_selected_package(1);
    assert_eq!(names(&app), vec!["one"]);
    assert_eq!(app.children, vec![""]);
    app.enter_selected_package(0);
    assert_eq!(names(&app), vec!["two"]);
    assert_eq!(app.current_package(), "x/");
    assert_eq!(app.spawn_rule_detail(0).unwrap().text.args[1], "//x/:two");
}

#[test]
fn rules_keep_the_order_of_the_listing() {
    let listing = "a rule //p:z\na rule //q:y\na rule //p:b\na rule //p:z";
    let mut app = AppState::new(parse_workspace(listing), PathBuf::new());
    app.enter_selected_package(0);
    assert_eq!(names(&app), vec!["z", "b", "z"]);
}

#[test]
fn order_between_packages_is_ignored() {
    let show = |listing: &str| {
        let mut app = AppState::new(parse_workspace(listing), PathBuf::new());
        let mut shown = vec![(app.children.clone(), rules_of(&app))];
        for i in 0..app.children.len() {
            app.enter_selected_package(i);
            shown.push((app.children.clone(), rules_of(&app)));
            app.go_up();
        }
        shown
    };
    let one = show("x rule //a:1\nx rule //b:1\ny rule //a:2\nz rule //:3");
    let other = show("z rule //:3\nno rule\nx rule //a:1\ny rule //a:2\nx rule //b:1");
    assert_eq!(one, other);
    assert_ne!(one, show("z rule //:3\ny rule //a:2\nx rule //a:1\nx rule //b:1"));
}

#[test]
fn entered_package_is_no_dead_end() {
    let mut app = AppState::new(parse_workspace("x rule //a/b/c:d"), PathBuf::new());
    for _ in 0..3 {
        assert!(app.rules.is_empty() && !app.children.is_empty());
        app.enter_selected_package(0);
    }
    assert!(!app.rules.is_empty() && app.children.is_empty());
}
