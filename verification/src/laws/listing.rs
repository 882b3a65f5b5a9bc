//! What a listing of rules means: which packages it tells of, where they lie, and what rules
//! they have.

use vstd::prelude::*;

use crate::bazel::{
    Rule, RuleView, line_record, listed_packages, package_path, recorded, recorded_packages,
    records, rule_views, rules_at,
};
use crate::laws::text::{
    separator_divides, splitting_once_cuts_at_the_first_place,
    text_without_separator_is_one_piece,
};
use crate::laws::{lines_at, path_spells_package, pieces_have_no_separator, rule_line};
use crate::text::{
    Text, joined, lemma_split_nonempty, lemma_split_once, occurs_at, split, split_once, trimmed,
};
use crate::trie::{Packages, Path, is_node};

verus! {

/// A rule is shown as what it is, each in its place.
pub proof fn rules_are_in_place(rules: Seq<Rule>, i: int)
    ensures
        rule_views(rules).len() == rules.len(),
        0 <= i < rules.len() ==> rule_views(rules)[i].name == rules[i].name@
            && rule_views(rules)[i].rule_type == rules[i].rule_type@,
{
}

/// Every path starts with an empty component for the root, and no component has a slash in
/// it. Those after the first one, with slashes between them, spell the package. The root
/// package has no other.
pub proof fn path_is_cut_at_every_slash(package: Text)
    ensures
        package_path(package).len() > 0,
        package_path(package)[0] == Seq::<char>::empty(),
        forall|i: int|
            0 <= i < package_path(package).len() ==> !(#[trigger] package_path(
                package,
            )[i]).contains('/'),
        joined(package_path(package).skip(1), seq!['/']) == package,
        package.len() == 0 <==> package_path(package).len() == 1,
{
    path_spells_package(package);
    reveal_strlit("/");
    assert("/"@ =~= seq!['/']);
    lemma_split_nonempty(package, '/');
    assert forall|i: int| 0 <= i < package_path(package).len() implies !(#[trigger] package_path(
        package,
    )[i]).contains('/') by {
        if i > 0 {
            pieces_have_no_separator(package, '/', i - 1);
        }
    }
}

/// The path of what lies below a package goes on from the path of the package, and a name
/// without a slash is one step.
pub proof fn path_goes_on_below_a_package(package: Text, name: Text)
    requires
        name.len() > 0,
        !name.contains('/'),
    ensures
        package_path(name) == seq![Seq::<char>::empty(), name],
        package.len() > 0 ==> package_path(package.push('/') + name) == package_path(package).push(
            name,
        ),
{
    text_without_separator_is_one_piece(name, '/');
    assert(package_path(name) =~= seq![Seq::<char>::empty(), name]);
    if package.len() > 0 {
        separator_divides(package, '/', name);
        assert(package_path(package.push('/') + name) =~= package_path(package).push(name));
    }
}

/// What a line tells of is what stands in it: its type, its package and its name, with
/// ` rule //` and a colon between them, and white space around. The type ends where
/// ` rule //` first stands, and the package at the first colon after that.
pub proof fn record_is_what_stands_in_the_line(line: Text)
    ensures
        match line_record(line) {
            Some((path, rule)) => exists|package: Text|
                {
                    &&& path == #[trigger] package_path(package)
                    &&& !package.contains(':')
                    &&& trimmed(line) == rule.rule_type + " rule //"@ + package + ":"@ + rule.name
                    &&& forall|j: int|
                        0 <= j < rule.rule_type.len() ==> #[trigger] trimmed(line).subrange(
                            j,
                            j + 8,
                        ) != " rule //"@
                },
            None => forall|rule_type: Text, package: Text, name: Text|
                trimmed(line) != #[trigger] rule_line(rule_type, package, name),
        },
{
    reveal_strlit(" rule //");
    reveal_strlit(":");
    assert(" rule //"@.len() == 8);
    assert(":"@ =~= seq![':']);
    let text = trimmed(line);
    splitting_once_cuts_at_the_first_place(text, " rule //"@);
    match split_once(text, " rule //"@) {
        Some((rule_type, label)) => {
            splitting_once_cuts_at_the_first_place(label, ":"@);
            match split_once(label, ":"@) {
                Some((package, name)) => {
                    assert(!package.contains(':')) by {
                        if package.contains(':') {
                            let k = choose|k: int| 0 <= k < package.len() && package[k] == ':';
                            assert(label.subrange(k, k + 1) =~= ":"@);
                        }
                    }
                    assert(text =~= rule_type + " rule //"@ + package + ":"@ + name);
                    assert forall|j: int| 0 <= j < rule_type.len() implies #[trigger] text.subrange(
                        j,
                        j + 8,
                    ) != " rule //"@ by {}
                    assert((line_record(line)->0).0 == package_path(package));
                },
                None => {
                    assert forall|t: Text, p: Text, n: Text| text != #[trigger] rule_line(t, p, n) by {
                        lemma_no_colon(text, rule_type, label, t, p, n);
                    }
                },
            }
        },
        None => {
            assert forall|t: Text, p: Text, n: Text| text != #[trigger] rule_line(t, p, n) by {
                if text == rule_line(t, p, n) {
                    let at = t.len() as int;
                    assert(text.subrange(at, at + 8) =~= " rule //"@);
                }
            }
        },
    }
}

proof fn lemma_no_colon(text: Text, rule_type: Text, label: Text, t: Text, p: Text, n: Text)
    requires
        split_once(text, " rule //"@) == Some((rule_type, label)),
        split_once(label, ":"@) is None,
    ensures
        text != rule_line(t, p, n),
{
    if text == rule_line(t, p, n) {
        reveal_strlit(" rule //");
        reveal_strlit(":");
        assert(":"@ =~= seq![':']);
        splitting_once_cuts_at_the_first_place(text, " rule //"@);
        splitting_once_cuts_at_the_first_place(label, ":"@);
        let at = t.len() as int;
        assert(text.subrange(at, at + 8) =~= " rule //"@);
        assert(rule_type.len() <= at);
        let colon = at + 8 + p.len();
        assert(text[colon] == ':');
        let k = colon - rule_type.len() - 8;
        assert(label[k] == ':');
        assert(label.subrange(k, k + 1) =~= ":"@);
    }
}

/// A line that is made of a type, a package and a name tells of them, whatever white space is
/// around.
pub proof fn line_tells_of_its_rule(line: Text, rule_type: Text, package: Text, name: Text)
    requires
        trimmed(line) == rule_type + " rule //"@ + package + ":"@ + name,
        forall|j: int|
            0 <= j < rule_type.len() ==> #[trigger] trimmed(line).subrange(j, j + 8)
                != " rule //"@,
        !package.contains(':'),
    ensures
        line_record(line) == Some((package_path(package), RuleView { name, rule_type })),
{
    reveal_strlit(" rule //");
    reveal_strlit(":");
    assert(":"@ =~= seq![':']);
    let text = trimmed(line);
    let words = " rule //"@;
    let n = rule_type.len() as int;
    assert(text.subrange(n, n + 8) =~= words);
    assert(occurs_at(text, words, n));
    assert forall|j: int| j < n implies !#[trigger] occurs_at(text, words, j) by {
        if occurs_at(text, words, j) {
            assert(text.subrange(j, j + 8) == words);
        }
    }
    lemma_split_once(text, words, n);
    assert(text.take(n) =~= rule_type);
    let label = package + ":"@ + name;
    assert(text.skip(n + 8) =~= label);
    let m = package.len() as int;
    assert(label.subrange(m, m + 1) =~= ":"@);
    assert(occurs_at(label, ":"@, m));
    assert forall|j: int| j < m implies !#[trigger] occurs_at(label, ":"@, j) by {
        if occurs_at(label, ":"@, j) {
            assert(label.subrange(j, j + 1)[0] == ':');
            assert(package[j] == ':');
        }
    }
    lemma_split_once(label, ":"@, m);
    assert(label.take(m) =~= package);
    assert(label.skip(m + 1) =~= name);
}

/// Each line is recorded by itself and in its order: what lines tell of is what the first of
/// them tell of, and then what the others do.
pub proof fn lines_are_recorded_in_order(a: Seq<Text>, line: Text)
    ensures
        records(Seq::empty()) == Seq::<(Path, RuleView)>::empty(),
        line_record(line) is None ==> records(a.push(line)) == records(a),
        line_record(line) is Some ==> records(a.push(line)) == records(a).push(
            line_record(line)->0,
        ),
{
    assert(a.push(line).drop_last() =~= a);
}

/// The rules under a path are those that are recorded with it, in their order.
pub proof fn rules_are_found_under_their_path(
    a: Seq<(Path, RuleView)>,
    path: Path,
    rule: RuleView,
    other: Path,
)
    requires
        path != other,
    ensures
        rules_at(Seq::empty(), path) == Seq::<RuleView>::empty(),
        rules_at(a.push((path, rule)), path) == rules_at(a, path).push(rule),
        rules_at(a.push((other, rule)), path) == rules_at(a, path),
{
    assert(a.push((path, rule)).drop_last() =~= a);
    assert(a.push((other, rule)).drop_last() =~= a);
}

/// The packages are the paths that are recorded, each with its rules.
pub proof fn packages_are_what_is_recorded(all: Seq<(Path, RuleView)>, path: Path)
    ensures
        recorded_packages(all).dom().contains(path) <==> exists|i: int|
            0 <= i < all.len() && (#[trigger] all[i]).0 == path,
        recorded_packages(all).dom().contains(path) ==> recorded_packages(all)[path] == rules_at(
            all,
            path,
        ),
{
}

/// A listing tells of a package if and only if one of its lines does, and the package has the
/// rule of each of its lines, in their order, and no other.
pub proof fn package_has_the_rules_of_its_lines(listing: Text, path: Path)
    ensures
        listed_packages(listing).dom().contains(path) <==> lines_at(
            split(listing, '\n'),
            path,
        ).len() > 0,
        listed_packages(listing).dom().contains(path) ==> {
            let lines = lines_at(split(listing, '\n'), path);
            let rules = listed_packages(listing)[path];
            &&& rules.len() == lines.len()
            &&& forall|i: int|
                0 <= i < lines.len() ==> line_record(lines[i]) == Some((path, #[trigger] rules[i]))
        },
{
    let lines = split(listing, '\n');
    lemma_rules_of_lines(lines, path);
}

proof fn lemma_rules_of_lines(lines: Seq<Text>, path: Path)
    ensures
        recorded(records(lines), path) <==> lines_at(lines, path).len() > 0,
        rules_at(records(lines), path).len() == lines_at(lines, path).len(),
        forall|i: int|
            0 <= i < lines_at(lines, path).len() ==> line_record(lines_at(lines, path)[i]) == Some(
                (path, #[trigger] rules_at(records(lines), path)[i]),
            ),
    decreases lines.len(),
{
    if lines.len() > 0 {
        let before = lines.drop_last();
        lemma_rules_of_lines(before, path);
        if let Some(record) = line_record(lines.last()) {
            let all = records(lines);
            let fewer = records(before);
            assert(all.drop_last() =~= fewer);
            assert forall|i: int| 0 <= i < lines_at(lines, path).len() implies line_record(
                lines_at(lines, path)[i],
            ) == Some((path, #[trigger] rules_at(all, path)[i])) by {
                if i < lines_at(before, path).len() {
                    assert(rules_at(all, path)[i] == rules_at(fewer, path)[i]);
                    assert(lines_at(lines, path)[i] == lines_at(before, path)[i]);
                }
            }
            if record.0 == path {
                assert(all[fewer.len() as int].0 == path);
            }
            if recorded(fewer, path) {
                let i = choose|i: int| 0 <= i < fewer.len() && (#[trigger] fewer[i]).0 == path;
                assert(all[i].0 == path);
            }
            if recorded(all, path) && record.0 != path {
                let i = choose|i: int| 0 <= i < all.len() && (#[trigger] all[i]).0 == path;
                assert(fewer[i].0 == path);
            }
        }
    }
}

/// A line of its own, wherever it stands in a listing, puts its rule last in its package, and
/// leaves all other packages as they are.
pub proof fn line_adds_its_rule(
    listing: Text,
    line: Text,
    package: Text,
    rule: RuleView,
    other: Path,
)
    requires
        !line.contains('\n'),
        line_record(line) == Some((package_path(package), rule)),
        other != package_path(package),
    ensures
        ({
            let before = listed_packages(listing);
            let after = listed_packages(listing.push('\n') + line);
            let path = package_path(package);
            &&& after.dom().contains(path)
            &&& after[path] == (if before.dom().contains(path) {
                before[path].push(rule)
            } else {
                seq![rule]
            })
            &&& after.dom().contains(other) == before.dom().contains(other)
            &&& before.dom().contains(other) ==> after[other] == before[other]
        }),
{
    let path = package_path(package);
    separator_divides(listing, '\n', line);
    text_without_separator_is_one_piece(line, '\n');
    let lines = split(listing, '\n');
    let more = split(listing.push('\n') + line, '\n');
    assert(more =~= lines.push(line));
    lines_are_recorded_in_order(lines, line);
    let fewer = records(lines);
    let all = records(more);
    assert(all == fewer.push((path, rule)));
    assert(all.drop_last() =~= fewer);
    assert(recorded(all, path)) by {
        assert(all[fewer.len() as int].0 == path);
    }
    if !recorded(fewer, path) {
        lemma_rules_of_lines(lines, path);
        assert(rules_at(fewer, path) =~= Seq::empty());
        assert(rules_at(all, path) =~= seq![rule]);
    }
    if recorded(fewer, other) {
        let i = choose|i: int| 0 <= i < fewer.len() && (#[trigger] fewer[i]).0 == other;
        assert(all[i].0 == other);
    }
    if recorded(all, other) {
        let i = choose|i: int| 0 <= i < all.len() && (#[trigger] all[i]).0 == other;
        assert(fewer[i].0 == other);
    }
}

/// A place in a workspace is the root or lies on the way to a package.
pub proof fn places_lie_on_the_way_to_packages(packages: Packages, path: Path)
    ensures
        is_node(packages, path) <==> path.len() == 0 || exists|key: Path| #[trigger]
            packages.dom().contains(key) && path.len() <= key.len() && key.take(path.len() as int)
                == path,
{
    if path.len() > 0 && is_node(packages, path) {
        let key = choose|key: Path| #[trigger]
            packages.dom().contains(key) && path.is_prefix_of(key);
        assert(key.take(path.len() as int) =~= path);
    }
    if exists|key: Path| #[trigger]
        packages.dom().contains(key) && path.len() <= key.len() && key.take(path.len() as int)
            == path {
        let key = choose|key: Path| #[trigger]
            packages.dom().contains(key) && path.len() <= key.len() && key.take(path.len() as int)
                == path;
        assert(path.is_prefix_of(key));
    }
}

} // verus!
