//! The build tool's side: the queries that are put to it and what its answers
//! mean.

use std::path::PathBuf;
use vstd::prelude::*;
use vstd::utf8::{decode_utf8, valid_utf8};

use crate::text::{
    Text, from_chars, pieces_of, split, split_chars, split_once, split_once_chars, texts, to_chars,
    trim, trim_chars, trimmed,
};
pub use crate::trie::PackageTrie;
use crate::trie::{
    Packages, Path, build_trie, builder_entries, new_builder, push_entry, trie_entries,
};

verus! {

/// A rule of a package.
#[derive(Debug)]
pub struct Rule {
    pub name: String,
    pub rule_type: String,
}

/// What a rule holds.
pub struct RuleView {
    pub name: Text,
    pub rule_type: Text,
}

impl View for Rule {
    type V = RuleView;

    open spec fn view(&self) -> RuleView {
        RuleView { name: self.name@, rule_type: self.rule_type@ }
    }
}

impl Clone for Rule {
    fn clone(&self) -> (r: Self)
        ensures
            r == *self,
    {
        Rule { name: self.name.clone(), rule_type: self.rule_type.clone() }
    }
}

/// What each rule of a list holds.
pub open spec fn rule_views(rules: Seq<Rule>) -> Seq<RuleView> {
    rules.map_values(|rule: Rule| rule@)
}

/// The components of the path of a package, as its label spells it. Every path
/// starts with an empty component for the root.
pub open spec fn package_path(package: Text) -> Path {
    if package.len() == 0 {
        seq![Seq::empty()]
    } else {
        seq![Seq::empty()] + split(package, '/')
    }
}

/// The package path and the rule that a line `<rule_type> rule //<package>:<name>`
/// tells of. White space around the line does not count, and other lines tell of
/// none.
pub open spec fn line_record(line: Text) -> Option<(Path, RuleView)> {
    match split_once(trimmed(line), " rule //"@) {
        None => None,
        Some((rule_type, label)) => match split_once(label, ":"@) {
            None => None,
            Some((package, name)) => Some(
                (package_path(package), RuleView { name, rule_type }),
            ),
        },
    }
}

/// What the lines tell of, in their order.
pub open spec fn records(lines: Seq<Text>) -> Seq<(Path, RuleView)>
    decreases lines.len(),
{
    if lines.len() == 0 {
        Seq::empty()
    } else {
        let before = records(lines.drop_last());
        match line_record(lines.last()) {
            Some(record) => before.push(record),
            None => before,
        }
    }
}

/// The rules that are recorded under `path`, in their order.
pub open spec fn rules_at(records: Seq<(Path, RuleView)>, path: Path) -> Seq<RuleView>
    decreases records.len(),
{
    if records.len() == 0 {
        Seq::empty()
    } else {
        let before = rules_at(records.drop_last(), path);
        if records.last().0 == path {
            before.push(records.last().1)
        } else {
            before
        }
    }
}

/// There is a record of `path`.
pub open spec fn recorded(records: Seq<(Path, RuleView)>, path: Path) -> bool {
    exists|i: int| 0 <= i < records.len() && (#[trigger] records[i]).0 == path
}

/// The packages that the records tell of, each with its rules.
pub open spec fn recorded_packages(records: Seq<(Path, RuleView)>) -> Packages {
    Map::new(|path: Path| recorded(records, path), |path: Path| rules_at(records, path))
}

/// The packages that a listing of rules, one to a line, tells of.
pub open spec fn listed_packages(listing: Text) -> Packages {
    recorded_packages(records(split(listing, '\n')))
}

/// A package with the rules found for it so far.
struct Package {
    path: Vec<String>,
    rules: Vec<Rule>,
}

/// `packages` holds each package of `map` once, with its rules, and each has a
/// path with a component.
spec fn tabulates(packages: Seq<Package>, map: Packages) -> bool {
    &&& forall|i: int| 0 <= i < packages.len() ==> (#[trigger] packages[i]).path@.len() > 0
    &&& forall|i: int|
        0 <= i < packages.len() ==> map.contains_pair(
            texts((#[trigger] packages[i]).path@),
            rule_views(packages[i].rules@),
        )
    &&& forall|path: Path| #[trigger]
        map.dom().contains(path) ==> exists|i: int|
            0 <= i < packages.len() && texts((#[trigger] packages[i]).path@) == path
    &&& forall|i: int, j: int|
        0 <= i < j < packages.len() ==> texts((#[trigger] packages[i]).path@) != texts(
            (#[trigger] packages[j]).path@,
        )
}

/// Whether two paths have the same components.
fn same_path(a: &Vec<String>, b: &Vec<String>) -> (r: bool)
    ensures
        r == (texts(a@) == texts(b@)),
{
    if a.len() != b.len() {
        assert(texts(a@).len() != texts(b@).len());
        return false;
    }
    for i in 0..a.len()
        invariant
            a@.len() == b@.len(),
            forall|j: int| 0 <= j < i ==> #[trigger] texts(a@)[j] == texts(b@)[j],
    {
        if a[i] != b[i] {
            assert(texts(a@)[i as int] != texts(b@)[i as int]);
            return false;
        }
    }
    assert(texts(a@) =~= texts(b@));
    true
}

proof fn lemma_record(records: Seq<(Path, RuleView)>, path: Path, rule: RuleView)
    ensures
        recorded_packages(records.push((path, rule))) == recorded_packages(records).insert(
            path,
            rules_at(records, path).push(rule),
        ),
{
    let more = records.push((path, rule));
    assert(more.drop_last() =~= records);
    assert forall|p: Path| recorded(more, p) <==> recorded(records, p) || p == path by {
        if recorded(records, p) {
            let i = choose|i: int| 0 <= i < records.len() && (#[trigger] records[i]).0 == p;
            assert(more[i].0 == p);
        }
        if p == path {
            assert(more[records.len() as int].0 == p);
        }
        if recorded(more, p) && p != path {
            let i = choose|i: int| 0 <= i < more.len() && (#[trigger] more[i]).0 == p;
            assert(records[i].0 == p);
        }
    }
    assert(recorded_packages(more) =~= recorded_packages(records).insert(
        path,
        rules_at(records, path).push(rule),
    ));
}

proof fn lemma_unrecorded(records: Seq<(Path, RuleView)>, path: Path)
    requires
        !recorded(records, path),
    ensures
        rules_at(records, path) == Seq::<RuleView>::empty(),
    decreases records.len(),
{
    if records.len() > 0 {
        assert(records[records.len() - 1].0 != path);
        assert forall|i: int| 0 <= i < records.drop_last().len() implies (
        #[trigger] records.drop_last()[i]).0 != path by {
            assert(records[i].0 != path);
        }
        lemma_unrecorded(records.drop_last(), path);
    }
}

/// Adds a rule to its package, which is new if no rule of it was added before.
fn add_rule(
    packages: &mut Vec<Package>,
    path: Vec<String>,
    rule: Rule,
    Ghost(records): Ghost<Seq<(Path, RuleView)>>,
)
    requires
        tabulates(old(packages)@, recorded_packages(records)),
        path@.len() > 0,
    ensures
        tabulates(final(packages)@, recorded_packages(records.push((texts(path@), rule@)))),
{
    let ghost before = packages@;
    let ghost key = texts(path@);
    let ghost map = recorded_packages(records);
    let ghost map_after = recorded_packages(records.push((key, rule@)));
    proof {
        lemma_record(records, key, rule@);
    }
    let mut i: usize = packages.len();
    while i > 0
        invariant
            i <= packages@.len(),
            packages@ == before,
            key == texts(path@),
            path@.len() > 0,
            map == recorded_packages(records),
            map_after == recorded_packages(records.push((key, rule@))),
            map_after == map.insert(key, rules_at(records, key).push(rule@)),
            tabulates(before, map),
            forall|j: int| i <= j < before.len() ==> texts((#[trigger] before[j]).path@) != key,
        decreases i,
    {
        i -= 1;
        if same_path(&packages[i].path, &path) {
            let ghost rule_view = rule@;
            packages[i].rules.push(rule);
            proof {
                let after = packages@;
                assert(rule_views(after[i as int].rules@) =~= rule_views(
                    before[i as int].rules@,
                ).push(rule_view));
                assert(map[key] == rules_at(records, key));
                assert forall|j: int| 0 <= j < after.len() implies map_after.contains_pair(
                    texts((#[trigger] after[j]).path@),
                    rule_views(after[j].rules@),
                ) by {
                    assert(map.contains_pair(
                        texts(before[j].path@),
                        rule_views(before[j].rules@),
                    ));
                    if j != i {
                        assert(texts(before[j].path@) != texts(before[i as int].path@));
                    }
                }
                assert forall|p: Path| #[trigger] map_after.dom().contains(p) implies exists|j: int|
                    0 <= j < after.len() && texts((#[trigger] after[j]).path@) == p by {
                    assert(map.dom().contains(p));
                    let j = choose|j: int|
                        0 <= j < before.len() && texts((#[trigger] before[j]).path@) == p;
                    assert(texts(after[j].path@) == p);
                }
            }
            return ;
        }
    }
    let ghost rule_view = rule@;
    let rules = vec![rule];
    packages.push(Package { path, rules });
    proof {
        let after = packages@;
        let n = before.len() as int;
        assert(!map.dom().contains(key));
        lemma_unrecorded(records, key);
        assert(rule_views(after[n].rules@) =~= rules_at(records, key).push(rule_view));
        assert forall|j: int| 0 <= j < after.len() implies map_after.contains_pair(
            texts((#[trigger] after[j]).path@),
            rule_views(after[j].rules@),
        ) by {
            if j < n {
                assert(before[j] == after[j]);
                assert(map.contains_pair(texts(before[j].path@), rule_views(before[j].rules@)));
            }
        }
        assert forall|p: Path| #[trigger] map_after.dom().contains(p) implies exists|j: int|
            0 <= j < after.len() && texts((#[trigger] after[j]).path@) == p by {
            if p == key {
                assert(texts(after[n].path@) == p);
            } else {
                assert(map.dom().contains(p));
                let j = choose|j: int|
                    0 <= j < before.len() && texts((#[trigger] before[j]).path@) == p;
                assert(texts(after[j].path@) == p);
            }
        }
    }
}


/// The components of the path of a package, as its label spells it.
fn path_components(package: &Vec<char>) -> (r: Vec<String>)
    ensures
        texts(r@) == package_path(package@),
        r@.len() > 0,
{
    let mut path: Vec<String> = vec![String::new()];
    assert(texts(path@) =~= seq![Seq::empty()]);
    if package.len() > 0 {
        let pieces = split_chars(package, '/');
        for i in 0..pieces.len()
            invariant
                pieces_of(pieces@) == split(package@, '/'),
                path@.len() == i + 1,
                texts(path@) == seq![Seq::<char>::empty()] + split(package@, '/').take(i as int),
        {
            let ghost before = texts(path@);
            path.push(from_chars(&pieces[i]));
            assert(pieces_of(pieces@)[i as int] == pieces@[i as int]@);
            assert(texts(path@) =~= before.push(split(package@, '/')[i as int]));
            assert(split(package@, '/').take(i + 1) =~= split(package@, '/').take(i as int).push(
                split(package@, '/')[i as int],
            ));
        }
        assert(pieces_of(pieces@).len() == pieces@.len());
        assert(split(package@, '/').take(pieces@.len() as int) =~= split(package@, '/'));
    }
    path
}

/// The package path and the rule that a line tells of.
fn parse_line(line: &Vec<char>) -> (r: Option<(Vec<String>, Rule)>)
    ensures
        match r {
            Some((path, rule)) => line_record(line@) == Some((texts(path@), rule@))
                && path@.len() > 0,
            None => line_record(line@) is None,
        },
{
    let line = trim_chars(line);
    match split_once_chars(&line, &to_chars(" rule //")) {
        None => None,
        Some((rule_type, label)) => match split_once_chars(&label, &to_chars(":")) {
            None => None,
            Some((package, name)) => Some(
                (
                    path_components(&package),
                    Rule { name: from_chars(&name), rule_type: from_chars(&rule_type) },
                ),
            ),
        },
    }
}

/// The packages that a listing of rules, one to a line, tells of.
pub fn parse_workspace(listing: &str) -> (r: PackageTrie)
    ensures
        trie_entries(r) == listed_packages(listing@),
{
    let lines = split_chars(&to_chars(listing), '\n');
    let ghost all = split(listing@, '\n');
    let mut packages: Vec<Package> = Vec::new();
    assert(all.take(0) =~= Seq::empty());
    for i in 0..lines.len()
        invariant
            pieces_of(lines@) == all,
            tabulates(packages@, recorded_packages(records(all.take(i as int)))),
    {
        assert(pieces_of(lines@)[i as int] == lines@[i as int]@);
        assert(all.take(i + 1).drop_last() =~= all.take(i as int));
        assert(all.take(i + 1).last() == lines@[i as int]@);
        if let Some((path, rule)) = parse_line(&lines[i]) {
            add_rule(&mut packages, path, rule, Ghost(records(all.take(i as int))));
        }
    }
    assert(pieces_of(lines@).len() == lines@.len());
    assert(all.take(lines@.len() as int) =~= all);
    build_packages(packages, Ghost(listed_packages(listing@)))
}

/// The trie of the given packages.
fn build_packages(packages: Vec<Package>, Ghost(map): Ghost<Packages>) -> (r: PackageTrie)
    requires
        tabulates(packages@, map),
    ensures
        trie_entries(r) == map,
{
    let mut builder = new_builder();
    let ghost all = packages@;
    let mut packages = packages;
    proof {
        assert(Packages::empty() =~= map.restrict(paths_from(all, all.len() as int)));
    }
    while packages.len() > 0
        invariant
            packages@.len() <= all.len(),
            packages@ == all.take(packages@.len() as int),
            tabulates(all, map),
            builder_entries(builder) == map.restrict(paths_from(all, packages@.len() as int)),
        decreases packages@.len(),
    {
        let ghost n = packages@.len() - 1;
        if let Some(package) = packages.pop() {
            assert(package == all[n]);
            push_entry(&mut builder, &package.path, package.rules);
            proof {
                let key = texts(all[n].path@);
                assert(map.contains_pair(key, rule_views(all[n].rules@)));
                assert(map.restrict(paths_from(all, n)) =~= map.restrict(
                    paths_from(all, n + 1),
                ).insert(key, rule_views(all[n].rules@))) by {
                    assert forall|p: Path|
                        #[trigger] paths_from(all, n).contains(p) <==> paths_from(
                            all,
                            n + 1,
                        ).contains(p) || p == key by {
                        if p == key {
                            assert(texts(all[n].path@) == p);
                        }
                    }
                }
            }
        }
    }
    proof {
        assert(map.restrict(paths_from(all, 0)) =~= map) by {
            assert forall|p: Path| #[trigger] map.dom().contains(p) implies paths_from(
                all,
                0,
            ).contains(p) by {
                let i = choose|i: int|
                    0 <= i < all.len() && texts((#[trigger] all[i]).path@) == p;
                assert(texts(all[i].path@) == p);
            }
        }
    }
    build_trie(builder)
}

/// The paths of the packages from index `from` on.
spec fn paths_from(packages: Seq<Package>, from: int) -> Set<Path> {
    Set::new(
        |path: Path|
            exists|i: int|
                from <= i < packages.len() && texts((#[trigger] packages[i]).path@) == path,
    )
}


/// `std::path::PathBuf`, the directory of a workspace.
#[verifier::external_type_specification]
#[verifier::external_body]
pub struct ExPathBuf(std::path::PathBuf);

/// `PathBuf::clone`: the copy is the same path.
pub assume_specification[ <PathBuf as Clone>::clone ](path: &PathBuf) -> (r: PathBuf)
    ensures
        r == *path,
;

/// The text that `String::from_utf8_lossy` makes of bytes.
pub uninterp spec fn lossy_text(bytes: Seq<u8>) -> Seq<char>;

/// `String::from_utf8_lossy`: valid UTF-8 is decoded. What stands for the invalid
/// parts of other bytes is left to the name `lossy_text`.
#[verifier::external_body]
fn decode_lossy(bytes: &Vec<u8>) -> (r: String)
    ensures
        r@ == lossy_text(bytes@),
        valid_utf8(bytes@) ==> r@ == decode_utf8(bytes@),
{
    String::from_utf8_lossy(bytes).into_owned()
}

/// Bytes that are valid UTF-8 are read as what they encode.
pub open spec fn decodes_utf8(bytes: Seq<u8>) -> bool {
    valid_utf8(bytes) ==> lossy_text(bytes) == decode_utf8(bytes)
}

/// How a finished command ended and what it wrote.
#[derive(Debug)]
pub struct CommandOutput {
    pub success: bool,
    pub stdout: Vec<u8>,
    pub stderr: Vec<u8>,
}

/// A command that is to run in a directory.
#[derive(Debug)]
pub struct Invocation {
    pub program: &'static str,
    pub args: Vec<String>,
    pub workspace_dir: PathBuf,
}

/// What an invocation holds.
pub struct InvocationView {
    pub program: Text,
    pub args: Seq<Text>,
    pub workspace_dir: PathBuf,
}

impl View for Invocation {
    type V = InvocationView;

    open spec fn view(&self) -> InvocationView {
        InvocationView {
            program: self.program@,
            args: texts(self.args@),
            workspace_dir: self.workspace_dir,
        }
    }
}

/// The build tool with the given arguments.
pub open spec fn bzl(workspace_dir: PathBuf, args: Seq<Text>) -> InvocationView {
    InvocationView { program: "bzl"@, args, workspace_dir }
}

/// What the build tool is told to do with a target.
#[derive(Debug, Clone, Copy, PartialEq, Eq, Structural)]
pub enum BzlCommand {
    Build,
    Run,
    Test,
}

impl BzlCommand {
    /// The command's name on the command line.
    pub open spec fn arg_text(self) -> Text {
        match self {
            BzlCommand::Build => "build"@,
            BzlCommand::Run => "run"@,
            BzlCommand::Test => "test"@,
        }
    }

    /// The command's name in titles.
    pub open spec fn label_text(self) -> Text {
        match self {
            BzlCommand::Build => "Build"@,
            BzlCommand::Run => "Run"@,
            BzlCommand::Test => "Test"@,
        }
    }

    /// The command's name on the command line.
    pub fn arg(self) -> (r: &'static str)
        ensures
            r@ == self.arg_text(),
    {
        match self {
            BzlCommand::Build => "build",
            BzlCommand::Run => "run",
            BzlCommand::Test => "test",
        }
    }

    /// The command's name in titles.
    pub fn label(self) -> (r: &'static str)
        ensures
            r@ == self.label_text(),
    {
        match self {
            BzlCommand::Build => "Build",
            BzlCommand::Run => "Run",
            BzlCommand::Test => "Test",
        }
    }
}

/// One of the answers that tell about a rule.
#[derive(Debug)]
pub enum DetailUpdate {
    Text(Result<String, String>),
    Runnable(bool),
    Testable(bool),
}

/// What an answer about a rule holds.
pub enum DetailUpdateView {
    Text(Result<Text, Text>),
    Runnable(bool),
    Testable(bool),
}

/// What a string or an error text holds.
pub open spec fn result_text(result: Result<String, String>) -> Result<Text, Text> {
    match result {
        Ok(text) => Ok(text@),
        Err(error) => Err(error@),
    }
}

impl View for DetailUpdate {
    type V = DetailUpdateView;

    open spec fn view(&self) -> DetailUpdateView {
        match self {
            DetailUpdate::Text(result) => DetailUpdateView::Text(result_text(*result)),
            DetailUpdate::Runnable(value) => DetailUpdateView::Runnable(*value),
            DetailUpdate::Testable(value) => DetailUpdateView::Testable(*value),
        }
    }
}

/// The label of a rule: `//<package>:<rule>`.
pub open spec fn target_text(package: Text, rule: Text) -> Text {
    "//"@ + package + ":"@ + rule
}

/// The label of a rule: `//<package>:<rule>`.
pub fn target(package: &str, rule: &str) -> (r: String)
    ensures
        r@ == target_text(package@, rule@),
{
    let mut label = "//".to_owned();
    label.append(package);
    label.append(":");
    label.append(rule);
    label
}

/// The query that lists all rules of a workspace.
pub open spec fn workspace_query(workspace_dir: PathBuf) -> InvocationView {
    bzl(workspace_dir, seq!["query"@, "//..."@, "--output"@, "label_kind"@])
}

/// The query that lists all rules of a workspace.
pub fn list_workspace(workspace_dir: &PathBuf) -> (r: Invocation)
    ensures
        r@ == workspace_query(*workspace_dir),
{
    let args = vec![
        "query".to_owned(),
        "//...".to_owned(),
        "--output".to_owned(),
        "label_kind".to_owned(),
    ];
    let r = Invocation { program: "bzl", args, workspace_dir: workspace_dir.clone() };
    assert(r@.args =~= seq!["query"@, "//..."@, "--output"@, "label_kind"@]);
    r
}

/// What a finished command has to say: what it wrote to its output, or to its
/// errors if it failed.
pub open spec fn said(output: CommandOutput) -> Seq<u8> {
    if output.success {
        output.stdout@
    } else {
        output.stderr@
    }
}

/// What the answer to the query that lists all rules makes of a workspace: its
/// packages, or what went wrong.
pub fn load_workspace(output: &CommandOutput) -> (r: Result<PackageTrie, String>)
    ensures
        match r {
            Ok(trie) => output.success && trie_entries(trie) == listed_packages(
                lossy_text(output.stdout@),
            ),
            Err(error) => !output.success && error@ == "bzl query failed: "@ + lossy_text(
                output.stderr@,
            ),
        },
        decodes_utf8(said(*output)),
{
    if !output.success {
        return Err(query_failed(&output.stderr));
    }
    Ok(parse_workspace(decode_lossy(&output.stdout).as_str()))
}

/// The message of a failed query.
fn query_failed(stderr: &Vec<u8>) -> (r: String)
    ensures
        r@ == "bzl query failed: "@ + lossy_text(stderr@),
        decodes_utf8(stderr@),
{
    let mut message = "bzl query failed: ".to_owned();
    message.append(decode_lossy(stderr).as_str());
    message
}

/// The queries that tell about a rule.
#[derive(Debug)]
pub struct DetailQueries {
    pub text: Invocation,
    pub runnable: Invocation,
    pub testable: Invocation,
}

/// What the queries about a rule hold.
pub struct DetailQueriesView {
    pub text: InvocationView,
    pub runnable: InvocationView,
    pub testable: InvocationView,
}

impl View for DetailQueries {
    type V = DetailQueriesView;

    open spec fn view(&self) -> DetailQueriesView {
        DetailQueriesView {
            text: self.text@,
            runnable: self.runnable@,
            testable: self.testable@,
        }
    }
}

/// The queries about the target: its definition, whether it has an executable,
/// and the tests it stands for.
pub open spec fn detail_queries(workspace_dir: PathBuf, target: Text) -> DetailQueriesView {
    DetailQueriesView {
        text: bzl(workspace_dir, seq!["query"@, target, "--output"@, "build"@]),
        runnable: bzl(
            workspace_dir,
            seq![
                "cquery"@,
                target,
                "--output=starlark"@,
                "--starlark:expr=providers(target)['DefaultInfo'].files_to_run.executable != None"@,
            ],
        ),
        testable: bzl(workspace_dir, seq!["query"@, "tests("@ + target + ")"@]),
    }
}

/// The queries about a rule of a package.
pub fn spawn_rule_detail_queries(workspace_dir: PathBuf, package: String, rule: String) -> (r:
    DetailQueries)
    ensures
        r@ == detail_queries(workspace_dir, target_text(package@, rule@)),
{
    let target = target(package.as_str(), rule.as_str());
    let ghost label = target@;
    let text_args = vec![
        "query".to_owned(),
        target.clone(),
        "--output".to_owned(),
        "build".to_owned(),
    ];
    let runnable_args = vec![
        "cquery".to_owned(),
        target.clone(),
        "--output=starlark".to_owned(),
        "--starlark:expr=providers(target)['DefaultInfo'].files_to_run.executable != None".to_owned(),
    ];
    let mut tests = "tests(".to_owned();
    tests.append(target.as_str());
    tests.append(")");
    let testable_args = vec!["query".to_owned(), tests];
    let r = DetailQueries {
        text: Invocation { program: "bzl", args: text_args, workspace_dir: workspace_dir.clone() },
        runnable: Invocation {
            program: "bzl",
            args: runnable_args,
            workspace_dir: workspace_dir.clone(),
        },
        testable: Invocation { program: "bzl", args: testable_args, workspace_dir },
    };
    proof {
        let expected = detail_queries(r.testable.workspace_dir, label);
        assert(r@.text.args =~= expected.text.args);
        assert(r@.runnable.args =~= expected.runnable.args);
        assert(r@.testable.args =~= expected.testable.args);
    }
    r
}

/// A query that was run: its output, or why it did not start.
pub type QueryOutcome = Result<CommandOutput, String>;

/// What the query for the definition of a rule found.
pub open spec fn rule_text(outcome: QueryOutcome) -> Result<Text, Text> {
    match outcome {
        Err(error) => Err("failed to spawn bzl: "@ + error@),
        Ok(output) => if output.success {
            Ok(lossy_text(output.stdout@))
        } else {
            Err("bzl query failed: "@ + lossy_text(output.stderr@))
        },
    }
}

/// What the query for the definition of a rule found.
pub fn query_rule_text(outcome: &QueryOutcome) -> (r: Result<String, String>)
    ensures
        result_text(r) == rule_text(*outcome),
        *outcome matches Ok(output) ==> decodes_utf8(said(output)),
{
    match outcome {
        Err(error) => {
            let mut message = "failed to spawn bzl: ".to_owned();
            message.append(error.as_str());
            Err(message)
        },
        Ok(output) => if output.success {
            Ok(decode_lossy(&output.stdout))
        } else {
            Err(query_failed(&output.stderr))
        },
    }
}

/// The answer `True`, with white space around it or not.
pub open spec fn says_true(answer: Text) -> bool {
    trimmed(answer) == "True"@
}

/// An answer that holds more than white space.
pub open spec fn says_something(answer: Text) -> bool {
    trimmed(answer).len() > 0
}

/// Whether the answer is `True`.
pub fn is_true(answer: &str) -> (r: bool)
    ensures
        r == says_true(answer@),
{
    trim(answer) == "True".to_owned()
}

/// Whether the answer holds more than white space.
pub fn is_something(answer: &str) -> (r: bool)
    ensures
        r == says_something(answer@),
{
    !trim(answer).as_str().is_empty()
}

/// The query for the executable of a rule succeeded and found one.
pub open spec fn found_executable(output: CommandOutput) -> bool {
    output.success && says_true(lossy_text(output.stdout@))
}

/// The query for the tests that a rule stands for succeeded and found some.
pub open spec fn found_tests(output: CommandOutput) -> bool {
    output.success && says_something(lossy_text(output.stdout@))
}

/// Whether a rule has an executable, or why the query for it did not start.
pub fn query_is_runnable(outcome: &QueryOutcome) -> (r: Result<bool, String>)
    ensures
        match *outcome {
            Err(error) => r == Err::<bool, String>(error),
            Ok(output) => r == Ok::<bool, String>(found_executable(output)),
        },
        *outcome matches Ok(output) ==> output.success ==> decodes_utf8(output.stdout@),
{
    match outcome {
        Err(error) => Err(error.clone()),
        Ok(output) => {
            if !output.success {
                return Ok(false);
            }
            Ok(is_true(decode_lossy(&output.stdout).as_str()))
        },
    }
}

/// Whether a rule stands for tests, or why the query for them did not start.
pub fn query_is_testable(outcome: &QueryOutcome) -> (r: Result<bool, String>)
    ensures
        match *outcome {
            Err(error) => r == Err::<bool, String>(error),
            Ok(output) => r == Ok::<bool, String>(found_tests(output)),
        },
        *outcome matches Ok(output) ==> output.success ==> decodes_utf8(output.stdout@),
{
    match outcome {
        Err(error) => Err(error.clone()),
        Ok(output) => {
            if !output.success {
                return Ok(false);
            }
            Ok(is_something(decode_lossy(&output.stdout).as_str()))
        },
    }
}

/// The answer of the query for the definition of a rule.
pub fn text_update(outcome: &QueryOutcome) -> (r: DetailUpdate)
    ensures
        r@ == DetailUpdateView::Text(rule_text(*outcome)),
        *outcome matches Ok(output) ==> decodes_utf8(said(output)),
{
    DetailUpdate::Text(query_rule_text(outcome))
}

/// The answer of the query for the executable of a rule. A rule of which it is not
/// known that it has one has none.
pub fn runnable_update(outcome: &QueryOutcome) -> (r: DetailUpdate)
    ensures
        r@ == DetailUpdateView::Runnable(
            *outcome matches Ok(output) && found_executable(output),
        ),
        *outcome matches Ok(output) ==> output.success ==> decodes_utf8(output.stdout@),
{
    match query_is_runnable(outcome) {
        Ok(runnable) => DetailUpdate::Runnable(runnable),
        Err(_) => DetailUpdate::Runnable(false),
    }
}

/// The answer of the query for the tests of a rule. A rule of which it is not known
/// that it stands for tests stands for none.
pub fn testable_update(outcome: &QueryOutcome) -> (r: DetailUpdate)
    ensures
        r@ == DetailUpdateView::Testable(*outcome matches Ok(output) && found_tests(output)),
        *outcome matches Ok(output) ==> output.success ==> decodes_utf8(output.stdout@),
{
    match query_is_testable(outcome) {
        Ok(testable) => DetailUpdate::Testable(testable),
        Err(_) => DetailUpdate::Testable(false),
    }
}

/// The build tool with a command and the target it is for.
pub fn spawn_bzl_command(workspace_dir: PathBuf, command: BzlCommand, target: String) -> (r:
    Invocation)
    ensures
        r@ == bzl(workspace_dir, seq![command.arg_text(), target@]),
{
    let ghost label = target@;
    let args = vec![command.arg().to_owned(), target];
    let r = Invocation { program: "bzl", args, workspace_dir };
    assert(r@.args =~= seq![command.arg_text(), label]);
    r
}

/// What a running command reports.
#[derive(Debug)]
pub enum RunUpdate {
    Line(String),
    Exited(Option<i32>),
    SpawnFailed(String),
}

/// What a report of a running command holds.
pub enum RunUpdateView {
    Line(Text),
    Exited(Option<i32>),
    SpawnFailed(Text),
}

impl View for RunUpdate {
    type V = RunUpdateView;

    open spec fn view(&self) -> RunUpdateView {
        match self {
            RunUpdate::Line(line) => RunUpdateView::Line(line@),
            RunUpdate::Exited(code) => RunUpdateView::Exited(*code),
            RunUpdate::SpawnFailed(error) => RunUpdateView::SpawnFailed(error@),
        }
    }
}

} // verus!
