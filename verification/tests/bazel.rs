use std::path::PathBuf;

use bzlui::app::AppState;
use bzlui::bazel::{
    is_something, is_true, list_workspace, load_workspace, parse_workspace, query_is_runnable,
    query_is_testable, query_rule_text, runnable_update, spawn_bzl_command,
    spawn_rule_detail_queries, target, testable_update, text_update, BzlCommand, CommandOutput,
    DetailUpdate, Invocation, QueryOutcome, RunUpdate,
};
use bzlui::run::{finished, not_started, RunStreams, Stream};

fn output(success: bool, stdout: &[u8], stderr: &[u8]) -> CommandOutput {
    CommandOutput { success, stdout: stdout.to_vec(), stderr: stderr.to_vec() }
}

fn dir() -> PathBuf {
    PathBuf::from("/work/space")
}

fn check_invocation(invocation: &Invocation, args: &[&str]) {
    assert_eq!(invocation.program, "bzl");
    assert_eq!(invocation.args, args);
    assert_eq!(invocation.workspace_dir, dir());
}

fn rules(app: &AppState) -> Vec<(String, String)> {
    app.rules.iter().map(|r| (r.rule_type.clone(), r.name.clone())).collect()
}

fn pair(a: &str, b: &str) -> (String, String) {
    (a.to_string(), b.to_string())
}

#[test]
fn command_names() {
    assert_eq!(BzlCommand::Build.arg(), "build");
    assert_eq!(BzlCommand::Run.arg(), "run");
    assert_eq!(BzlCommand::Test.arg(), "test");
    assert_eq!(BzlCommand::Build.label(), "Build");
    assert_eq!(BzlCommand::Run.label(), "Run");
    assert_eq!(BzlCommand::Test.label(), "Test");
}

#[test]
fn workspace_is_listed_by_a_query() {
    check_invocation(&list_workspace(&dir()), &["query", "//...", "--output", "label_kind"]);
}

#[test]
fn listing_is_loaded() {
    let listing = b"rust_binary rule //:main\r\n\
        rust_library rule //tools/otel:bar\n\
        \n\
          filegroup rule //tools/otel:all files  \n\
        source file //tools/otel:BUILD\n\
        no label rule //tools\n\
        rust_test rule //:main_test";
    let trie = load_workspace(&output(true, listing, b"")).unwrap();
    let mut app = AppState::new(trie, dir());
    assert_eq!(app.current_prefix(), vec![""]);
    assert_eq!(app.children, vec!["tools"]);
    assert_eq!(rules(&app), vec![pair("rust_binary", "main"), pair("rust_test", "main_test")]);
    app.enter_selected_package(0);
    assert_eq!(app.current_prefix(), vec!["", "tools"]);
    assert!(app.rules.is_empty());
    app.enter_selected_package(0);
    assert_eq!(app.current_prefix(), vec!["", "tools", "otel"]);
    assert_eq!(rules(&app), vec![pair("rust_library", "bar"), pair("filegroup", "all files")]);
}

#[test]
fn first_words_and_first_colon_divide_a_line() {
    let app = AppState::new(parse_workspace("a rule //: rule //b:c"), dir());
    assert_eq!(rules(&app), vec![pair("a", " rule //b:c")]);
}

#[test]
fn listing_with_invalid_bytes_is_loaded() {
    let trie = load_workspace(&output(true, b"cc\xff rule //:x", b"")).unwrap();
    let app = AppState::new(trie, dir());
    assert_eq!(rules(&app), vec![pair("cc\u{fffd}", "x")]);
}

#[test]
fn failed_listing_is_an_error() {
    let error = load_workspace(&output(false, b"a rule //:b", b"no such \xfe thing")).unwrap_err();
    assert_eq!(error, "bzl query failed: no such \u{fffd} thing");
}

#[test]
fn queries_about_a_rule() {
    let queries =
        spawn_rule_detail_queries(dir(), "tools/otel".to_string(), "bar".to_string());
    check_invocation(&queries.text, &["query", "//tools/otel:bar", "--output", "build"]);
    check_invocation(
        &queries.runnable,
        &[
            "cquery",
            "//tools/otel:bar",
            "--output=starlark",
            "--starlark:expr=providers(target)['DefaultInfo'].files_to_run.executable != None",
        ],
    );
    check_invocation(&queries.testable, &["query", "tests(//tools/otel:bar)"]);
    assert_eq!(target("", "x"), "//:x");
}

#[test]
fn definition_of_a_rule() {
    let failed: QueryOutcome = Err("not found".to_string());
    assert_eq!(query_rule_text(&failed), Err("failed to spawn bzl: not found".to_string()));
    assert_eq!(
        query_rule_text(&Ok(output(false, b"x", b"bad"))),
        Err("bzl query failed: bad".to_string())
    );
    assert_eq!(query_rule_text(&Ok(output(true, b"x\xf0", b"bad"))), Ok("x\u{fffd}".to_string()));
}

#[test]
fn runnable_rules() {
    assert_eq!(query_is_runnable(&Ok(output(true, b" True\n", b""))), Ok(true));
    assert_eq!(query_is_runnable(&Ok(output(true, b"False\n", b""))), Ok(false));
    assert_eq!(query_is_runnable(&Ok(output(true, b"True True", b""))), Ok(false));
    assert_eq!(query_is_runnable(&Ok(output(false, b"True", b""))), Ok(false));
    assert_eq!(query_is_runnable(&Err("no".to_string())), Err("no".to_string()));
    assert!(is_true("\tTrue"));
    assert!(!is_true(""));
}

#[test]
fn testable_rules() {
    assert_eq!(query_is_testable(&Ok(output(true, b"//a:b\n", b""))), Ok(true));
    assert_eq!(query_is_testable(&Ok(output(true, b" \n\t", b""))), Ok(false));
    assert_eq!(query_is_testable(&Ok(output(false, b"//a:b", b""))), Ok(false));
    assert_eq!(query_is_testable(&Err("no".to_string())), Err("no".to_string()));
    assert!(is_something("x"));
    assert!(!is_something("\u{2028}"));
}

#[test]
fn answers_about_a_rule() {
    let failed: QueryOutcome = Err("not found".to_string());
    assert!(matches!(text_update(&failed), DetailUpdate::Text(Err(e))
        if e == "failed to spawn bzl: not found"));
    assert!(matches!(runnable_update(&failed), DetailUpdate::Runnable(false)));
    assert!(matches!(testable_update(&failed), DetailUpdate::Testable(false)));
    let answered: QueryOutcome = Ok(output(true, b"True", b""));
    assert!(matches!(text_update(&answered), DetailUpdate::Text(Ok(t)) if t == "True"));
    assert!(matches!(runnable_update(&answered), DetailUpdate::Runnable(true)));
    assert!(matches!(testable_update(&answered), DetailUpdate::Testable(true)));
    let other: QueryOutcome = Ok(output(true, b"False", b""));
    assert!(matches!(runnable_update(&other), DetailUpdate::Runnable(false)));
}

#[test]
fn valid_text_is_read_as_it_is() {
    let listing = "règle rule //größe:日本".as_bytes();
    let trie = load_workspace(&output(true, listing, b"")).unwrap();
    let mut app = AppState::new(trie, dir());
    assert_eq!(app.children, vec!["größe"]);
    app.enter_selected_package(0);
    assert_eq!(rules(&app), vec![pair("règle", "日本")]);
    let error = load_workspace(&output(false, b"", "échec".as_bytes())).unwrap_err();
    assert_eq!(error, "bzl query failed: échec");
}

#[test]
fn commands_for_a_target() {
    let invocation = spawn_bzl_command(dir(), BzlCommand::Test, "//a:b".to_string());
    check_invocation(&invocation, &["test", "//a:b"]);
}

#[test]
fn streams_are_read_until_both_end() {
    let mut streams = RunStreams::new();
    assert!(streams.is_open(Stream::Stdout) && streams.is_open(Stream::Stderr));
    let line = streams.receive(Stream::Stderr, Ok(Some("one".to_string())));
    assert!(matches!(line, Some(RunUpdate::Line(s)) if s == "one"));
    assert!(streams.receive(Stream::Stdout, Ok(None)).is_none());
    assert!(!streams.is_open(Stream::Stdout));
    assert!(!streams.all_done());
    assert!(streams.receive(Stream::Stderr, Err("broken".to_string())).is_none());
    assert!(streams.all_done());
}

#[test]
fn every_line_is_reported_once() {
    let reads = [
        (Stream::Stdout, Some("out 1")),
        (Stream::Stderr, Some("err 1")),
        (Stream::Stdout, Some("out 2")),
        (Stream::Stdout, None),
        (Stream::Stderr, Some("err 2")),
        (Stream::Stderr, None),
    ];
    let mut streams = RunStreams::new();
    let mut reports = Vec::new();
    for (stream, line) in reads {
        assert!(!streams.all_done() && streams.is_open(stream));
        reports.extend(streams.receive(stream, Ok(line.map(|l| l.to_string()))));
    }
    assert!(streams.all_done());
    reports.push(finished(Ok(Some(0))));
    let lines: Vec<&str> = reports
        .iter()
        .filter_map(|r| match r {
            RunUpdate::Line(line) => Some(line.as_str()),
            _ => None,
        })
        .collect();
    assert_eq!(lines, vec!["out 1", "err 1", "out 2", "err 2"]);
    assert_eq!(reports.len(), 5);
    assert!(matches!(reports[4], RunUpdate::Exited(Some(0))));
}

#[test]
fn last_report_has_the_exit_code() {
    assert!(matches!(finished(Ok(Some(3))), RunUpdate::Exited(Some(3))));
    assert!(matches!(finished(Ok(None)), RunUpdate::Exited(None)));
    assert!(matches!(finished(Err("lost".to_string())), RunUpdate::Exited(None)));
    assert!(matches!(not_started("no".to_string()), RunUpdate::SpawnFailed(e) if e == "no"));
}
