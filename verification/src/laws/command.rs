//! What the build tool is asked and told, what its answers mean, and what a running command
//! reports.

use std::path::PathBuf;
use vstd::prelude::*;

use crate::bazel::{
    BzlCommand, CommandOutput, DetailQueries, DetailUpdate, DetailUpdateView, Invocation,
    QueryOutcome, RunUpdate, RunUpdateView, bzl, decodes_utf8, detail_queries, found_executable,
    found_tests, lossy_text, result_text, rule_text, said, says_something, says_true, target_text,
    workspace_query,
};
use crate::laws::text::{
    trimming_takes_white_space_at_the_ends, trimming_undoes_putting_space_around,
};
use crate::run::{ReadLine, RunStreams, Stream, exit_code, line_read, report, report_view, reports};
use crate::text::{Text, is_white_space, texts};

verus! {

/// What is said of a command is said of its program, its arguments and its directory.
pub proof fn invocation_is_what_runs(invocation: Invocation)
    ensures
        invocation@.program == invocation.program@,
        invocation@.args == texts(invocation.args@),
        invocation@.workspace_dir == invocation.workspace_dir,
{
}

/// What is said of the queries about a rule is said of each of them.
pub proof fn queries_are_what_is_asked(queries: DetailQueries)
    ensures
        queries@.text == queries.text@,
        queries@.runnable == queries.runnable@,
        queries@.testable == queries.testable@,
{
}

/// The build tool is `bzl`, run in the workspace with the arguments given.
pub proof fn build_tool_is_bzl(workspace_dir: PathBuf, args: Seq<Text>)
    ensures
        bzl(workspace_dir, args).program == "bzl"@,
        bzl(workspace_dir, args).args == args,
        bzl(workspace_dir, args).workspace_dir == workspace_dir,
{
}

/// A workspace is listed by `bzl query //... --output label_kind`.
pub proof fn workspace_is_listed_by_kind(workspace_dir: PathBuf)
    ensures
        workspace_query(workspace_dir).program == "bzl"@,
        workspace_query(workspace_dir).args == seq![
            "query"@,
            "//..."@,
            "--output"@,
            "label_kind"@,
        ],
        workspace_query(workspace_dir).workspace_dir == workspace_dir,
{
}

/// The label of a rule is made of its package and its name and of nothing else, and different
/// rules of a package, and rules of packages without a colon, have different labels.
pub proof fn label_names_one_rule(package: Text, rule: Text, package2: Text, rule2: Text)
    ensures
        target_text(package, rule) == seq!['/', '/'] + package + seq![':'] + rule,
        target_text(package, rule) == target_text(package2, rule2) && !package.contains(':')
            && !package2.contains(':') ==> package == package2 && rule == rule2,
        target_text(package, rule) == target_text(package, rule2) ==> rule == rule2,
{
    reveal_strlit("//");
    reveal_strlit(":");
    assert("//"@ =~= seq!['/', '/']);
    assert(":"@ =~= seq![':']);
    let a = target_text(package, rule);
    let n = package.len() as int;
    assert(a.subrange(2, 2 + n) =~= package);
    assert(a.skip(3 + n) =~= rule);
    assert(a[2 + n] == ':');
    let b = target_text(package2, rule2);
    let m = package2.len() as int;
    assert(b.subrange(2, 2 + m) =~= package2);
    assert(b.skip(3 + m) =~= rule2);
    assert(b[2 + m] == ':');
    if a == b && !package.contains(':') && !package2.contains(':') {
        if n < m {
            assert(package2[n] == b[2 + n]);
        }
        if m < n {
            assert(package[m] == a[2 + m]);
        }
    }
    let c = target_text(package, rule2);
    assert(c.skip(3 + n) =~= rule2);
}

/// The three queries about a rule: its definition, whether it has an executable, and its
/// tests. All are about the target, and run in the workspace.
pub proof fn queries_are_about_the_target(workspace_dir: PathBuf, target: Text)
    ensures
        detail_queries(workspace_dir, target).text.program == "bzl"@,
        detail_queries(workspace_dir, target).text.args == seq![
            "query"@,
            target,
            "--output"@,
            "build"@,
        ],
        detail_queries(workspace_dir, target).text.workspace_dir == workspace_dir,
        detail_queries(workspace_dir, target).runnable.program == "bzl"@,
        detail_queries(workspace_dir, target).runnable.args == seq![
            "cquery"@,
            target,
            "--output=starlark"@,
            "--starlark:expr=providers(target)['DefaultInfo'].files_to_run.executable != None"@,
        ],
        detail_queries(workspace_dir, target).runnable.workspace_dir == workspace_dir,
        detail_queries(workspace_dir, target).testable.program == "bzl"@,
        detail_queries(workspace_dir, target).testable.args == seq![
            "query"@,
            "tests("@ + target + ")"@,
        ],
        detail_queries(workspace_dir, target).testable.workspace_dir == workspace_dir,
{
}

/// Every command has the name that the build tool knows it by, and a title.
pub proof fn commands_have_their_names(command: BzlCommand)
    ensures
        command.arg_text() == match command {
            BzlCommand::Build => "build"@,
            BzlCommand::Run => "run"@,
            BzlCommand::Test => "test"@,
        },
        command.label_text() == match command {
            BzlCommand::Build => "Build"@,
            BzlCommand::Run => "Run"@,
            BzlCommand::Test => "Test"@,
        },
{
}

/// A command that succeeded has said what it wrote to its output, and one that failed what it
/// wrote to its errors. Valid UTF-8 is what it encodes.
pub proof fn commands_say_what_they_wrote(output: CommandOutput)
    ensures
        output.success ==> said(output) == output.stdout@,
        !output.success ==> said(output) == output.stderr@,
        decodes_utf8(said(output)) && vstd::utf8::valid_utf8(said(output)) ==> lossy_text(
            said(output),
        ) == vstd::utf8::decode_utf8(said(output)),
{
}

/// The definition of a rule is all that the query for it wrote. If the query failed, or did not
/// start, the error says so and tells why.
pub proof fn definition_is_the_whole_answer(outcome: QueryOutcome)
    ensures
        rule_text(outcome) is Ok <==> outcome is Ok && outcome->Ok_0.success,
        rule_text(outcome) is Ok ==> rule_text(outcome)->Ok_0 == lossy_text(
            outcome->Ok_0.stdout@,
        ),
        outcome is Ok && !outcome->Ok_0.success ==> rule_text(outcome)->Err_0
            == "bzl query failed: "@ + lossy_text(outcome->Ok_0.stderr@),
        outcome is Err ==> rule_text(outcome)->Err_0 == "failed to spawn bzl: "@
            + outcome->Err_0@,
{
}

/// An answer says so if it is `True` and white space around it, and nothing else.
pub proof fn only_true_says_true(before: Text, answer: Text, after: Text)
    ensures
        says_true(answer) ==> exists|from: int, to: int|
            {
                &&& 0 <= from <= to <= answer.len()
                &&& #[trigger] answer.subrange(from, to) == "True"@
                &&& forall|k: int| 0 <= k < from ==> is_white_space(#[trigger] answer[k])
                &&& forall|k: int| to <= k < answer.len() ==> is_white_space(#[trigger] answer[k])
            },
        (forall|k: int| 0 <= k < before.len() ==> is_white_space(#[trigger] before[k])) && (forall|
            k: int,
        | 0 <= k < after.len() ==> is_white_space(#[trigger] after[k])) ==> says_true(
            before + "True"@ + after,
        ),
{
    reveal_strlit("True");
    assert("True"@ =~= seq!['T', 'r', 'u', 'e']);
    if says_true(answer) {
        let (from, to) = trimming_takes_white_space_at_the_ends(answer);
        assert(answer.subrange(from, to) == "True"@);
    }
    if (forall|k: int| 0 <= k < before.len() ==> is_white_space(#[trigger] before[k])) && (forall|
        k: int,
    | 0 <= k < after.len() ==> is_white_space(#[trigger] after[k])) {
        trimming_undoes_putting_space_around(before, "True"@, after);
    }
}

/// An answer says something if and only if a character of it is not white space.
pub proof fn anything_but_space_says_something(answer: Text)
    ensures
        says_something(answer) <==> exists|k: int|
            0 <= k < answer.len() && !is_white_space(#[trigger] answer[k]),
{
    let (from, to) = trimming_takes_white_space_at_the_ends(answer);
    if says_something(answer) {
        assert(!is_white_space(answer[from]));
    }
    if exists|k: int| 0 <= k < answer.len() && !is_white_space(#[trigger] answer[k]) {
        let k = choose|k: int| 0 <= k < answer.len() && !is_white_space(#[trigger] answer[k]);
        assert(from <= k < to);
    }
}

/// A rule can be run if the query for its executable succeeded and its output says so, and it
/// can be tested if the query for its tests succeeded and its output lists any.
pub proof fn answers_count_if_the_query_succeeded(output: CommandOutput)
    ensures
        found_executable(output) <==> output.success && says_true(lossy_text(output.stdout@)),
        found_tests(output) <==> output.success && says_something(lossy_text(output.stdout@)),
{
}

/// What is said of an answer about a rule is said of what it holds.
pub proof fn answers_are_what_they_hold(update: DetailUpdate, result: Result<String, String>)
    ensures
        update is Text ==> update@ == DetailUpdateView::Text(result_text(update->Text_0)),
        update is Runnable ==> update@ == DetailUpdateView::Runnable(update->Runnable_0),
        update is Testable ==> update@ == DetailUpdateView::Testable(update->Testable_0),
        result is Ok ==> result_text(result) == Ok::<Text, Text>(result->Ok_0@),
        result is Err ==> result_text(result) == Err::<Text, Text>(result->Err_0@),
{
}

/// What is said of a report of a command is said of what it holds.
pub proof fn reports_are_what_they_hold(update: RunUpdate)
    ensures
        update is Line ==> update@ == RunUpdateView::Line(update->Line_0@),
        update is Exited ==> update@ == RunUpdateView::Exited(update->Exited_0),
        update is SpawnFailed ==> update@ == RunUpdateView::SpawnFailed(update->SpawnFailed_0@),
        report_view(Some(update)) == Some(update@),
        report_view(None::<RunUpdate>) is None,
{
}

/// A line that was read is reported as it is. The end of a stream and an error are not
/// reported.
pub proof fn lines_are_reported_as_they_are(read: ReadLine)
    ensures
        read is Ok && read->Ok_0 is Some ==> report(line_read(read)) == Some(
            RunUpdateView::Line((read->Ok_0)->0@),
        ),
        read is Err || read->Ok_0 is None ==> line_read(read) is None && report(
            line_read(read),
        ) is None,
{
}

/// Both streams of a command are open at the start. A line leaves them so; what is no line
/// ends the stream it is from, and the other stays as it is.
pub proof fn streams_end_one_by_one(streams: RunStreams, stream: Stream, other: Stream, line: Text)
    requires
        stream != other,
    ensures
        !RunStreams::both_open().stdout_done && !RunStreams::both_open().stderr_done,
        streams.done(Stream::Stdout) == streams.stdout_done,
        streams.done(Stream::Stderr) == streams.stderr_done,
        streams.after((stream, Some(line))) == streams,
        streams.after((stream, None)).done(stream),
        streams.after((stream, None)).done(other) == streams.done(other),
{
}

/// The last report of a command has the exit code, if the command has one and it could be
/// found out.
pub proof fn exit_code_is_reported(code: Option<i32>, error: String)
    ensures
        exit_code(Ok(code)) == code,
        exit_code(Err(error)) is None,
        reports(Seq::empty(), Ok(code)) == seq![RunUpdateView::Exited(code)],
{
    assert(reports(Seq::empty(), Ok(code)) =~= seq![RunUpdateView::Exited(code)]);
}

} // verus!
