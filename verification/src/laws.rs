//! What holds of the library as a whole.
//!
//! The laws of its parts stand in the modules below: what the text operations do, what a
//! listing of rules means, where moving about leads, what the commands are, what is seen of
//! lists, rules and output, and what the keys do.

use vstd::prelude::*;

pub mod command;
pub mod keys;
pub mod listing;
pub mod lists;
pub mod place;
pub mod screen;
pub mod text;
pub mod windows;

use crate::app::{AppView, child_listing, is_listing, is_sorted, listing_unique, root_path};
use crate::bazel::{
    DetailUpdateView, RuleView, RunUpdateView, line_record, listed_packages, package_path, recorded,
    recorded_packages, records, rules_at, target_text,
};
use crate::key::{KeyCode, KeyEvent};
use crate::list_view::{ListModel, Move};
use crate::modal::{DetailModel, RunModel, RunStatusView, shown_bindings_are_taken};
use crate::run::{
    Outcome, Read, Stream, command_reports, exit_code, interleaves, is_run, line_reports,
    lines_from, reads_from, reports, streams_after,
};
use crate::scene::{Rect, ViewId, lies_within};
use crate::text::{
    Text, is_white_space, joined, lemma_split_nonempty, lemma_split_once, occurs_at, split,
    text_less, text_less_total, text_less_transitive, trim_end, trim_start, trimmed,
};
use crate::trie::{Packages, Path, is_node};
use crate::ui::{
    ActionView, MainModel, ModalModel, ModalUpdateView, is_centered, is_rooted, packages_list,
    rules_list,
};

verus! {

proof fn lemma_joined_push(pieces: Seq<Text>, piece: Text, sep: Text)
    requires
        pieces.len() > 0,
    ensures
        joined(pieces.push(piece), sep) == joined(pieces, sep) + sep + piece,
{
    assert(pieces.push(piece).drop_last() =~= pieces);
}

/// Text that is split at a separator and joined with it again is what it was.
pub proof fn joining_undoes_splitting(text: Text, sep: char)
    ensures
        joined(split(text, sep), seq![sep]) == text,
    decreases text.len(),
{
    if text.len() > 0 {
        let rest = text.drop_last();
        let before = split(rest, sep);
        joining_undoes_splitting(rest, sep);
        lemma_split_nonempty(rest, sep);
        if text.last() == sep {
            lemma_joined_push(before, Seq::empty(), seq![sep]);
            assert(joined(split(text, sep), seq![sep]) =~= rest.push(sep));
        } else {
            let init = before.drop_last();
            let last = before.last();
            assert(before =~= init.push(last));
            if init.len() > 0 {
                lemma_joined_push(init, last, seq![sep]);
                lemma_joined_push(init, last.push(text.last()), seq![sep]);
                assert(joined(split(text, sep), seq![sep]) =~= rest.push(text.last()));
            } else {
                assert(before =~= seq![last]);
                assert(joined(before, seq![sep]) == last);
                assert(split(text, sep) =~= seq![last.push(text.last())]);
            }
        }
        assert(text =~= rest.push(text.last()));
    } else {
        assert(text =~= Seq::empty());
    }
}

/// No piece of a split text has the separator in it.
pub proof fn pieces_have_no_separator(text: Text, sep: char, i: int)
    requires
        0 <= i < split(text, sep).len(),
    ensures
        !split(text, sep)[i].contains(sep),
    decreases text.len(),
{
    if text.len() > 0 {
        let before = split(text.drop_last(), sep);
        lemma_split_nonempty(text.drop_last(), sep);
        if i < before.len() {
            pieces_have_no_separator(text.drop_last(), sep, i);
        }
        if text.last() != sep && i == before.len() - 1 {
            let last = before.last();
            let piece = last.push(text.last());
            assert(split(text, sep)[i] == piece);
            if piece.contains(sep) {
                let k = choose|k: int| 0 <= k < piece.len() && piece[k] == sep;
                assert(last[k] == sep);
            }
        }
    }
}

/// The path of a package spells the package as its label does: the label of a rule
/// is made of the components that the label was taken apart into.
pub proof fn path_spells_package(package: Text)
    ensures
        joined(package_path(package).skip(1), "/"@) == package,
{
    reveal_strlit("/");
    assert("/"@ =~= seq!['/']);
    joining_undoes_splitting(package, '/');
    if package.len() == 0 {
        assert(package_path(package).skip(1) =~= Seq::empty());
        assert(package =~= Seq::empty());
    } else {
        assert(package_path(package).skip(1) =~= split(package, '/'));
    }
}

/// Different packages have different paths.
pub proof fn packages_do_not_collide(a: Text, b: Text)
    requires
        package_path(a) == package_path(b),
    ensures
        a == b,
{
    path_spells_package(a);
    path_spells_package(b);
}

/// The line that tells of a rule of a package.
pub open spec fn rule_line(rule_type: Text, package: Text, name: Text) -> Text {
    rule_type + " rule //"@ + package + ":"@ + name
}

/// A line that tells of a rule is read as that rule: if there is no white space at
/// its ends, if the words between type and label do not start within the type, and
/// if the package has no colon.
pub proof fn rule_line_is_read(rule_type: Text, package: Text, name: Text)
    requires
        trimmed(rule_line(rule_type, package, name)) == rule_line(rule_type, package, name),
        forall|j: int|
            0 <= j < rule_type.len() ==> !#[trigger] occurs_at(
                rule_line(rule_type, package, name),
                " rule //"@,
                j,
            ),
        !package.contains(':'),
    ensures
        line_record(rule_line(rule_type, package, name)) == Some(
            (package_path(package), RuleView { name, rule_type }),
        ),
{
    let line = rule_line(rule_type, package, name);
    let words = " rule //"@;
    let n = rule_type.len() as int;
    assert(line.subrange(n, n + words.len()) =~= words);
    assert(occurs_at(line, words, n));
    lemma_split_once(line, words, n);
    assert(line.take(n) =~= rule_type);
    let label = package + ":"@ + name;
    assert(line.skip(n + words.len()) =~= label);

    let colon = ":"@;
    reveal_strlit(":");
    assert(colon =~= seq![':']);
    let m = package.len() as int;
    assert(label.subrange(m, m + 1) =~= colon);
    assert(occurs_at(label, colon, m));
    assert forall|j: int| j < m implies !#[trigger] occurs_at(label, colon, j) by {
        if occurs_at(label, colon, j) {
            assert(label.subrange(j, j + 1)[0] == ':');
            assert(package[j] == ':');
        }
    }
    lemma_split_once(label, colon, m);
    assert(label.take(m) =~= package);
    assert(label.skip(m + 1) =~= name);
}

proof fn lemma_trim_start_drops(space: Text, text: Text)
    requires
        forall|i: int| 0 <= i < space.len() ==> is_white_space(#[trigger] space[i]),
    ensures
        trim_start(space + text) == trim_start(text),
    decreases space.len(),
{
    if space.len() > 0 {
        assert(is_white_space(space[0]));
        assert((space + text).drop_first() =~= space.drop_first() + text);
        lemma_trim_start_drops(space.drop_first(), text);
    } else {
        assert(space + text =~= text);
    }
}

proof fn lemma_trim_end_drops(text: Text, space: Text)
    requires
        forall|i: int| 0 <= i < space.len() ==> is_white_space(#[trigger] space[i]),
    ensures
        trim_end(text + space) == trim_end(text),
    decreases space.len(),
{
    if space.len() > 0 {
        assert(is_white_space(space[space.len() - 1]));
        assert((text + space).drop_last() =~= text + space.drop_last());
        lemma_trim_end_drops(text, space.drop_last());
    } else {
        assert(text + space =~= text);
    }
}

proof fn lemma_trim_start_before(text: Text, space: Text)
    requires
        forall|i: int| 0 <= i < space.len() ==> is_white_space(#[trigger] space[i]),
    ensures
        trim_end(trim_start(text + space)) == trim_end(trim_start(text)),
    decreases text.len(),
{
    if text.len() == 0 {
        assert(text + space =~= space);
        assert(space + Seq::<char>::empty() =~= space);
        lemma_trim_start_drops(space, Seq::empty());
        assert(text =~= Seq::empty());
    } else if is_white_space(text.first()) {
        assert((text + space).drop_first() =~= text.drop_first() + space);
        lemma_trim_start_before(text.drop_first(), space);
    } else {
        lemma_trim_end_drops(text, space);
    }
}

/// White space around a line, such as a carriage return at its end, does not matter.
pub proof fn white_space_around_line_is_ignored(before: Text, line: Text, after: Text)
    requires
        forall|i: int| 0 <= i < before.len() ==> is_white_space(#[trigger] before[i]),
        forall|i: int| 0 <= i < after.len() ==> is_white_space(#[trigger] after[i]),
    ensures
        line_record(before + line + after) == line_record(line),
{
    assert(before + line + after =~= before + (line + after));
    lemma_trim_start_drops(before, line + after);
    lemma_trim_start_before(line, after);
}

/// Every path that is recorded starts with the component for the root.
pub proof fn recorded_paths_start_at_root(lines: Seq<Text>, i: int)
    requires
        0 <= i < records(lines).len(),
    ensures
        records(lines)[i].0.len() > 0,
        records(lines)[i].0[0] == Seq::<char>::empty(),
    decreases lines.len(),
{
    if lines.len() > 0 {
        let before = records(lines.drop_last());
        if i < before.len() {
            recorded_paths_start_at_root(lines.drop_last(), i);
        }
    }
}

/// Every package that a listing tells of lies below the root of the workspace, and
/// has a rule.
pub proof fn listed_packages_lie_below_root(listing: Text, path: Path)
    requires
        listed_packages(listing).dom().contains(path),
    ensures
        path.len() > 0,
        path[0] == Seq::<char>::empty(),
        listed_packages(listing)[path].len() > 0,
{
    let lines = split(listing, '\n');
    let all = records(lines);
    assert(recorded(all, path));
    let i = choose|i: int| 0 <= i < all.len() && (#[trigger] all[i]).0 == path;
    recorded_paths_start_at_root(lines, i);
    lemma_rules_at_contains(all, i);
}

proof fn lemma_rules_at_contains(all: Seq<(Path, RuleView)>, i: int)
    requires
        0 <= i < all.len(),
    ensures
        rules_at(all, all[i].0).contains(all[i].1),
    decreases all.len(),
{
    let path = all[i].0;
    let before = rules_at(all.drop_last(), path);
    if i == all.len() - 1 {
        assert(rules_at(all, path)[before.len() as int] == all[i].1);
    } else {
        lemma_rules_at_contains(all.drop_last(), i);
        let k = choose|k: int| 0 <= k < before.len() && before[k] == all[i].1;
        assert(rules_at(all, path)[k] == all[i].1);
    }
}

/// A workspace for which a listing tells of a package has its root as the first place,
/// so that it can be shown.
pub proof fn loaded_workspace_has_root(listing: Text, path: Path)
    requires
        listed_packages(listing).dom().contains(path),
    ensures
        root_path(listed_packages(listing)) == seq![Seq::<char>::empty()],
{
    listed_packages_lie_below_root(listing, path);
    let root = seq![Seq::<char>::empty()];
    assert(path.take(1) =~= root);
    assert(root.is_prefix_of(path));
    assert(is_node(listed_packages(listing), root));
}

/// Who stands at the package of a rule that a listing tells of is shown that rule, and
/// its target is the label that the listing gave it.
pub proof fn listed_rule_is_shown(
    app: AppView,
    listing: Text,
    i: int,
    rule_type: Text,
    package: Text,
    name: Text,
)
    requires
        app.packages == listed_packages(listing),
        app == app.refreshed(),
        0 <= i < split(listing, '\n').len(),
        line_record(split(listing, '\n')[i]) == Some(
            (package_path(package), RuleView { name, rule_type }),
        ),
        app.current() == package_path(package),
    ensures
        app.rules.contains(RuleView { name, rule_type }),
        target_text(app.package(), name) == "//"@ + package + ":"@ + name,
{
    let lines = split(listing, '\n');
    let k = lemma_line_recorded(lines, i);
    let all = records(lines);
    assert(recorded(all, package_path(package))) by {
        assert(all[k].0 == package_path(package));
    }
    lemma_rules_at_contains(all, k);
    path_spells_package(package);
}

proof fn lemma_line_recorded(lines: Seq<Text>, i: int) -> (k: int)
    requires
        0 <= i < lines.len(),
        line_record(lines[i]) is Some,
    ensures
        0 <= k < records(lines).len(),
        records(lines)[k] == line_record(lines[i])->0,
    decreases lines.len(),
{
    let before = records(lines.drop_last());
    if i == lines.len() - 1 {
        before.len() as int
    } else {
        assert(lines.drop_last()[i] == lines[i]);
        lemma_line_recorded(lines.drop_last(), i)
    }
}

/// Going back after entering a sub-package leads to where one was.
pub proof fn going_up_undoes_entering(app: AppView, i: int)
    requires
        app == app.refreshed(),
        app.stack.len() > 0,
        0 <= i < app.children.len(),
    ensures
        app.below(i).above() == app,
{
    let inner = app.below(i);
    assert(inner.stack.drop_last() =~= app.stack);
}

/// Entering a sub-package that is listed leads to it: the path goes on by the component
/// that was listed.
pub proof fn entering_leads_to_child(app: AppView, i: int)
    requires
        app.is_listed(),
        0 <= i < app.children.len(),
    ensures
        app.below(i).current() == app.current().push(app.children[i]),
        app.below(i).packages == app.packages,
{
    assert(app.children.contains(app.children[i]));
    assert(is_node(app.packages, app.current().push(app.children[i])));
}

/// Every package can be reached: on the way to it, the next component is listed.
pub proof fn way_to_package_is_listed(
    packages: Packages,
    path: Path,
    depth: int,
    children: Seq<Text>,
)
    requires
        packages.dom().contains(path),
        0 <= depth < path.len(),
        is_listing(children, packages, path.take(depth)),
    ensures
        children.contains(path[depth]),
{
    let longer = path.take(depth).push(path[depth]);
    assert(longer =~= path.take(depth + 1));
    assert(longer.is_prefix_of(path));
    assert(is_node(packages, longer));
    assert(children.contains(path[depth]));
}

/// The places on the way to the package shown follow from one another: the way starts at
/// the root, and each place is a sub-package of the one before it.
pub open spec fn is_way(packages: Packages, stack: Seq<Path>) -> bool {
    &&& stack.len() > 0
    &&& stack[0] == root_path(packages)
    &&& forall|i: int|
        0 <= i < stack.len() - 1 ==> (#[trigger] stack[i + 1]) == stack[i].push(stack[i + 1].last())
            && stack[i + 1].len() > 0 && is_node(packages, stack[i + 1])
}

/// The root alone is a way.
pub proof fn first_place_is_a_way(packages: Packages)
    ensures
        is_way(packages, seq![root_path(packages)]),
{
}

/// Entering a listed sub-package and going back keep the way in order.
pub proof fn way_is_kept(app: AppView, i: int)
    requires
        is_way(app.packages, app.stack),
        app.is_listed(),
    ensures
        is_way(app.packages, app.below(i).stack),
        is_way(app.packages, app.above().stack),
{
    if 0 <= i < app.children.len() {
        entering_leads_to_child(app, i);
        let inner = app.below(i).stack;
        assert(inner =~= app.stack.push(app.current().push(app.children[i])));
        assert(app.children.contains(app.children[i]));
        assert forall|k: int| 0 <= k < inner.len() - 1 implies (#[trigger] inner[k + 1])
            == inner[k].push(inner[k + 1].last()) && inner[k + 1].len() > 0 && is_node(
            app.packages,
            inner[k + 1],
        ) by {
            if k < app.stack.len() - 1 {
                assert(app.stack[k + 1] == app.stack[k].push(app.stack[k + 1].last()));
            } else {
                assert(inner[k] == app.current());
                assert(inner[k + 1].last() == app.children[i]);
            }
        }
    }
    if app.stack.len() > 1 {
        let outer = app.above().stack;
        assert(outer =~= app.stack.drop_last());
        assert forall|k: int| 0 <= k < outer.len() - 1 implies (#[trigger] outer[k + 1])
            == outer[k].push(outer[k + 1].last()) && outer[k + 1].len() > 0 && is_node(
            app.packages,
            outer[k + 1],
        ) by {
            assert(app.stack[k + 1] == app.stack[k].push(app.stack[k + 1].last()));
        }
    }
}

/// A way through a workspace that has packages can be shown: no place on it lacks the
/// component for the root.
pub proof fn way_is_rooted(app: AppView)
    requires
        is_way(app.packages, app.stack),
        root_path(app.packages).len() > 0,
    ensures
        is_rooted(app),
{
    assert forall|i: int| 0 <= i < app.stack.len() implies (#[trigger] app.stack[i]).len() > 0 by {
        if i > 0 {
            assert(app.stack[(i - 1) + 1].len() > 0);
        }
    }
    assert(app.current() == app.stack[app.stack.len() - 1]);
}

/// What is shown always belongs to the place: entering a sub-package and going back keep
/// the sub-packages and the rules those of the package shown.
pub proof fn place_stays_refreshed(app: AppView, i: int)
    requires
        app == app.refreshed(),
    ensures
        app.below(i) == app.below(i).refreshed(),
        app.above() == app.above().refreshed(),
{
}

/// At the first place there is no way back.
pub proof fn first_place_has_no_parent(app: AppView)
    requires
        app.stack.len() <= 1,
    ensures
        app.above() == app,
{
}

/// A key that was not handled changed nothing, and nothing is to be done.
pub proof fn unhandled_key_changes_nothing(view: MainModel, key: KeyEvent)
    requires
        !view.after_key(key).handled,
    ensures
        view.after_key(key).view == view,
        view.after_key(key).action == ActionView::Nothing,
{
}

/// `q` closes the window on top as long as one is open, and is left to the caller, who
/// quits, when none is.
pub proof fn quit_key_closes_windows_first(view: MainModel, key: KeyEvent)
    requires
        key.code == KeyCode::Char('q'),
    ensures
        view.after_key(key).handled == (view.modals.len() > 0),
        view.modals.len() > 0 ==> view.after_key(key).view.modals == view.modals.drop_last(),
        view.modals.len() > 0 ==> view.after_key(key).action == ActionView::CloseModal,
{
}

/// What is to be done after a key tells how the windows changed: queries come with a new
/// window for a rule, a command with a new window for its output, and closing with one
/// window less. Otherwise as many windows are open as before, and each is of the kind that
/// it was.
pub proof fn action_tells_of_windows(view: MainModel, key: KeyEvent)
    ensures
        ({
            let after = view.after_key(key).view.modals;
            match view.after_key(key).action {
                ActionView::QueryRule(_) => after.len() == view.modals.len() + 1
                    && after.drop_last() == view.modals && after.last() is RuleDetail,
                ActionView::RunCommand(_) => after.len() == view.modals.len() + 1
                    && after.drop_last() == view.modals && after.last() is RunOutput,
                ActionView::CloseModal => view.modals.len() > 0 && after
                    == view.modals.drop_last(),
                ActionView::Nothing => after.len() == view.modals.len() && forall|i: int|
                    0 <= i < after.len() ==> ((#[trigger] after[i]) is RuleDetail
                        <==> view.modals[i] is RuleDetail),
            }
        }),
{
    let step = view.after_key(key);
    let after = step.view.modals;
    match step.action {
        ActionView::QueryRule(_) => {
            assert(after.drop_last() =~= view.modals);
        },
        ActionView::RunCommand(_) => {
            assert(after.drop_last() =~= view.modals);
        },
        _ => {},
    }
}

/// Whatever the key, the flag goes on telling whether a window is open, and at most one
/// window is opened or closed.
pub proof fn one_key_opens_or_closes_one_window(view: MainModel, key: KeyEvent)
    requires
        view.modal_open == (view.modals.len() > 0),
    ensures
        view.after_key(key).view.modal_open == (view.after_key(key).view.modals.len() > 0),
        -1 <= view.after_key(key).view.modals.len() - view.modals.len() <= 1,
{
}

/// The middle of an area lies within it, so that a window does not go beyond what it is drawn
/// over.
pub proof fn middle_lies_within(percent_x: u16, percent_y: u16, container: Rect, r: Rect)
    requires
        is_centered(percent_x, percent_y, container, r),
    ensures
        lies_within(r, container),
{
}

/// Closing the window that a key opened leads back to the windows there were.
pub proof fn closing_undoes_opening(view: MainModel, modal: ModalModel, action: ActionView)
    ensures
        view.opening(modal, action).view.closing().view.modals == view.modals,
        view.opening(modal, action).view.closing().view.app == view.app,
        view.modal_open == (view.modals.len() > 0) ==> view.opening(
            modal,
            action,
        ).view.closing().view.modal_open == view.modal_open,
{
    assert(view.modals.push(modal).drop_last() =~= view.modals);
}

/// When the last window is closed the focus is on the list of rules.
pub proof fn closing_last_window_focuses_rules(view: MainModel)
    requires
        view.modals.len() == 1,
    ensures
        view.closing().view.focused(ViewId::Rules),
{
}

/// With the window of a rule on top, the keys that mean something are those that the window
/// tells of.
pub proof fn footer_tells_which_keys_are_handled(
    view: MainModel,
    detail: DetailModel,
    key: KeyEvent,
)
    requires
        view.modals.len() > 0,
        view.modals.last() == ModalModel::RuleDetail(detail),
        detail.wf(),
    ensures
        view.after_key(key).handled == detail.tells_of(key),
        detail.tells_of(key) == detail.takes(key),
{
    shown_bindings_are_taken(detail, key);
}

/// Whatever answers about a rule have come, its window tells of the keys that it takes.
pub proof fn answers_keep_bindings(detail: DetailModel, update: DetailUpdateView)
    ensures
        DetailModel::opened().wf(),
        detail.updated(update).wf(),
{
}

/// Two answers about a rule are of different kinds.
pub open spec fn different_kinds(a: DetailUpdateView, b: DetailUpdateView) -> bool {
    match (a, b) {
        (DetailUpdateView::Text(_), DetailUpdateView::Text(_)) => false,
        (DetailUpdateView::Runnable(_), DetailUpdateView::Runnable(_)) => false,
        (DetailUpdateView::Testable(_), DetailUpdateView::Testable(_)) => false,
        _ => true,
    }
}

/// It does not matter in which order the answers to the queries about a rule arrive.
pub proof fn answers_commute(detail: DetailModel, a: DetailUpdateView, b: DetailUpdateView)
    requires
        different_kinds(a, b),
    ensures
        detail.updated(a).updated(b) == detail.updated(b).updated(a),
{
}

/// News change no window but the one on top, and open and close none.
pub proof fn news_change_top_window_only(view: MainModel, update: ModalUpdateView)
    ensures
        view.updated(update).modals.len() == view.modals.len(),
        forall|i: int|
            0 <= i < view.modals.len() - 1 ==> #[trigger] view.updated(update).modals[i]
                == view.modals[i],
        view.updated(update) == (MainModel { modals: view.updated(update).modals, ..view }),
{
}

/// The two lists of a package take turns with the focus, whatever list is active and whether
/// a window is open: never both have it, one has it while no window is open, and none while
/// one is.
pub proof fn lists_take_turns(app: AppView, active: ViewId, modal_open: bool)
    ensures
        packages_list(app).focused(active, modal_open) == (active == ViewId::Packages
            && !modal_open),
        rules_list(app).focused(active, modal_open) == (active == ViewId::Rules && !modal_open),
        !(packages_list(app).focused(active, modal_open) && rules_list(app).focused(
            active,
            modal_open,
        )),
        (packages_list(app).focused(active, modal_open) || rules_list(app).focused(
            active,
            modal_open,
        )) == !modal_open,
{
}

/// At most one list of the screen has the focus, one has it while no window is open, and none
/// has it while one is. The lists are drawn with the focus that they have.
pub proof fn at_most_one_list_is_focused(view: MainModel)
    ensures
        !(view.focused(ViewId::Packages) && view.focused(ViewId::Rules)),
        (view.focused(ViewId::Packages) || view.focused(ViewId::Rules)) == !view.modal_open,
        view.wf() ==> (view.focused(ViewId::Packages) || view.focused(ViewId::Rules)) == (
        view.modals.len() == 0),
        view.wf() ==> view.packages.focused(view.active, view.modal_open) == view.focused(
            ViewId::Packages,
        ),
        view.wf() ==> view.rules.focused(view.active, view.modal_open) == view.focused(
            ViewId::Rules,
        ),
{
}

/// Switching lists twice leads back.
pub proof fn switching_twice_changes_nothing(view: MainModel, key: KeyEvent)
    requires
        view.modals.len() == 0,
        key.code == KeyCode::Tab,
    ensures
        view.after_key(key).view.after_key(key).view == view,
        view.after_key(key).view != view,
{
    assert(view.after_key(key).view.active != view.active);
}

/// A package without sub-packages is shown with the focus on its rules, and one with
/// sub-packages with the focus on them.
pub proof fn focus_follows_children(view: MainModel, app: AppView)
    requires
        !view.modal_open,
    ensures
        view.showing(app).focused(ViewId::Rules) == (app.children.len() == 0),
        view.showing(app).focused(ViewId::Packages) == (app.children.len() > 0),
{
}

/// Entering a sub-package and going back to where it was entered from leads to the same
/// screen but for the selection, which is at the first item of each list.
pub proof fn parent_key_undoes_enter_key(view: MainModel, enter: KeyEvent, up: KeyEvent)
    requires
        view.wf(),
        view.modals.len() == 0,
        view.active == ViewId::Packages,
        view.app == view.app.refreshed(),
        view.app.stack.len() > 0,
        view.packages.selection.index() < view.app.children.len(),
        view.app.below(view.packages.selection.index() as int).children.len() > 0,
        enter.code == KeyCode::Enter,
        up.code == KeyCode::Char('u'),
        !up.control,
    ensures
        view.after_key(enter).view.after_key(up).view == view.showing(view.app),
        view.showing(view.app).app == view.app,
        view.showing(view.app).active == view.active,
{
    going_up_undoes_entering(view.app, view.packages.selection.index() as int);
}

/// A page down leads to an item of the list, and a page up from an item to an item.
pub proof fn pages_stay_in_list(list: ListModel)
    requires
        list.items.len() <= usize::MAX,
    ensures
        list.has_page_down() ==> list.moved(Move::PageDown).selection.index() < list.items.len(),
        list.selection.index() < list.items.len() ==> list.moved(
            Move::PageUp,
        ).selection.index() < list.items.len(),
{
}

/// A line up undoes a line down.
pub proof fn line_up_undoes_line_down(list: ListModel, i: usize)
    requires
        list.selection.selected == Some(i),
        i < usize::MAX,
    ensures
        list.moved(Move::Down).moved(Move::Up) == list,
{
}

/// Once a list is drawn where there is room, an item of it is selected if one was, however far
/// past the end the selection had gone, and that item is on the screen. In an empty list none
/// is selected. The items themselves stay as they are.
pub proof fn drawing_selects_an_item(list: ListModel, area: Rect)
    requires
        area.width > 0,
        area.height > 0,
        list.items.len() <= usize::MAX,
    ensures
        ({
            let after = list.painted(area).selection;
            match (list.selection.selected, after.selected) {
                (Some(before), Some(i)) => {
                    &&& i < list.items.len()
                    &&& before < list.items.len() ==> i == before
                    &&& before >= list.items.len() ==> i == list.items.len() - 1
                    &&& after.offset <= i < after.offset + area.height
                },
                (Some(_), None) => list.items.len() == 0,
                (None, selected) => selected is None,
            }
        }),
        list.painted(area) == (ListModel { selection: list.painted(area).selection, ..list }),
{
}

/// The items of a list move no further than it takes to have the one selected on the screen:
/// if it is there already they stay.
pub proof fn drawing_keeps_what_is_visible(list: ListModel, area: Rect)
    requires
        list.selection.selected matches Some(i) && list.selection.offset <= i
            < list.selection.offset + area.height && i < list.items.len(),
        list.items.len() <= usize::MAX,
    ensures
        list.painted(area) == list,
{
}

/// Drawing a list again leaves it as it is.
pub proof fn drawing_a_list_settles(list: ListModel, area: Rect)
    requires
        list.items.len() <= usize::MAX,
    ensures
        list.painted(area).painted(area) == list.painted(area),
{
}

/// A window of output that follows the tail is drawn at the tail, no window is drawn beyond
/// it, and drawing a window again leaves it as it is.
pub proof fn drawing_settles(output: RunModel, height: u16)
    ensures
        output.follow_tail ==> output.settled(height).scroll == output.tail_scroll(height),
        output.settled(height).scroll <= output.tail_scroll(height),
        output.settled(height).settled(height) == output.settled(height),
{
    assert(output.settled(height).text_lines() == output.text_lines());
}

/// A report moves the text only in a window that follows the tail. One that does not stays
/// where it was drawn. One that does goes on, by a line for each line of output once the text
/// fills it. (Up to as many lines as scrolling can count.)
pub proof fn new_output_moves_only_the_tail(output: RunModel, update: RunUpdateView, height: u16)
    requires
        output == output.settled(height),
        output.text_lines().len() < u16::MAX,
    ensures
        ({
            let after = output.updated(update).settled(height);
            &&& !output.follow_tail ==> after.scroll == output.scroll
            &&& output.follow_tail ==> after.scroll >= output.scroll
            &&& output.follow_tail && update is Line && output.text_lines().len() >= height
                ==> after.scroll == output.scroll + 1
            &&& after.follow_tail == output.follow_tail
        }),
{
    let after = output.updated(update);
    assert(after.text_lines().len() <= output.text_lines().len() + 1);
    assert(after.text_lines().len() >= output.text_lines().len());
}

/// The window of a command after its reports.
pub open spec fn after_reports(output: RunModel, reports: Seq<RunUpdateView>) -> RunModel
    decreases reports.len(),
{
    if reports.len() == 0 {
        output
    } else {
        after_reports(output, reports.drop_last()).updated(reports.last())
    }
}

/// The lines among the reports of a command.
pub open spec fn reported_lines(reports: Seq<RunUpdateView>) -> Seq<Text>
    decreases reports.len(),
{
    if reports.len() == 0 {
        Seq::empty()
    } else {
        let before = reported_lines(reports.drop_last());
        match reports.last() {
            RunUpdateView::Line(line) => before.push(line),
            _ => before,
        }
    }
}

/// The window of a command shows every line that was reported, in order, and neither a
/// report nor the end of the command moves the text.
pub proof fn output_is_kept_in_order(output: RunModel, reports: Seq<RunUpdateView>)
    ensures
        after_reports(output, reports).lines == output.lines + reported_lines(reports),
        after_reports(output, reports).scroll == output.scroll,
        after_reports(output, reports).follow_tail == output.follow_tail,
    decreases reports.len(),
{
    if reports.len() > 0 {
        output_is_kept_in_order(output, reports.drop_last());
        assert(after_reports(output, reports).lines =~= output.lines + reported_lines(reports));
    } else {
        assert(output.lines + reported_lines(reports) =~= output.lines);
    }
}

proof fn lemma_reads_of_stream(reads: Seq<Read>, stream: Stream)
    requires
        forall|i: int|
            0 <= i < reads.len() ==> !streams_after(reads.take(i)).done((#[trigger] reads[i]).0),
    ensures
        ({
            let lines = lines_from(reads, stream).map_values(|line: Text| Some(line));
            reads_from(reads, stream) == if streams_after(reads).done(stream) {
                lines.push(None)
            } else {
                lines
            }
        }),
    decreases reads.len(),
{
    let lines = lines_from(reads, stream).map_values(|line: Text| Some(line));
    if reads.len() == 0 {
        assert(reads_from(reads, stream) =~= lines);
    } else {
        let before = reads.drop_last();
        assert forall|i: int| 0 <= i < before.len() implies !streams_after(before.take(i)).done(
            (#[trigger] before[i]).0,
        ) by {
            assert(before.take(i) =~= reads.take(i));
            assert(before[i] == reads[i]);
        }
        lemma_reads_of_stream(before, stream);
        let n = reads.len() - 1;
        assert(reads.take(n) =~= before);
        assert(!streams_after(reads.take(n)).done(reads[n].0));
        let lines_before = lines_from(before, stream).map_values(|line: Text| Some(line));
        if let (from, Some(line)) = reads.last() {
            if from == stream {
                assert(lines =~= lines_before.push(Some(line)));
            }
        }
    }
}

/// A command that is read to its end has each stream read to its end, and no further: what
/// the stream gave are its lines and then, once, its end.
pub proof fn streams_are_read_to_their_end(reads: Seq<Read>, stream: Stream)
    requires
        is_run(reads),
    ensures
        reads_from(reads, stream) == lines_from(reads, stream).map_values(
            |line: Text| Some(line),
        ).push(None),
{
    lemma_reads_of_stream(reads, stream);
    assert(streams_after(reads).done(stream));
}

proof fn lemma_line_reports(reads: Seq<Read>)
    ensures
        forall|i: int|
            0 <= i < line_reports(reads).len() ==> #[trigger] line_reports(reads)[i] is Line,
        line_reports(reads).len() == lines_from(reads, Stream::Stdout).len() + lines_from(
            reads,
            Stream::Stderr,
        ).len(),
        interleaves(
            reported_lines(line_reports(reads)),
            lines_from(reads, Stream::Stdout),
            lines_from(reads, Stream::Stderr),
        ),
    decreases reads.len(),
{
    if reads.len() > 0 {
        let before = reads.drop_last();
        lemma_line_reports(before);
        if let (from, Some(line)) = reads.last() {
            let told = line_reports(before);
            assert(line_reports(reads).drop_last() =~= told);
            let merged = reported_lines(line_reports(reads));
            assert(merged.drop_last() =~= reported_lines(told));
            assert(lines_from(reads, from).drop_last() =~= lines_from(before, from));
        }
    }
}

/// A command reports every line that was read from either of its streams once, in the order
/// of its stream, and then, once and at last, how it ended.
pub proof fn every_line_is_reported_once(reads: Seq<Read>, status: Result<Option<i32>, String>)
    ensures
        interleaves(
            reported_lines(reports(reads, status)),
            lines_from(reads, Stream::Stdout),
            lines_from(reads, Stream::Stderr),
        ),
        reports(reads, status).len() == lines_from(reads, Stream::Stdout).len() + lines_from(
            reads,
            Stream::Stderr,
        ).len() + 1,
        reports(reads, status).last() == RunUpdateView::Exited(exit_code(status)),
        forall|i: int|
            0 <= i < reports(reads, status).len() - 1 ==> #[trigger] reports(
                reads,
                status,
            )[i] is Line,
{
    lemma_line_reports(reads);
    let all = reports(reads, status);
    assert(all.drop_last() =~= line_reports(reads));
    assert forall|i: int| 0 <= i < all.len() - 1 implies #[trigger] all[i] is Line by {
        assert(all[i] == line_reports(reads)[i]);
    }
}

/// A command that did not start has one report, which tells why, and its window holds no
/// output.
pub proof fn command_not_started_is_told(title: Text, error: Text)
    ensures
        command_reports(Outcome::NotStarted { error }) == seq![RunUpdateView::SpawnFailed(error)],
        after_reports(
            RunModel::opened(title),
            command_reports(Outcome::NotStarted { error }),
        ) == (RunModel {
            status: RunStatusView::SpawnFailed(error),
            ..RunModel::opened(title)
        }),
{
    let all = command_reports(Outcome::NotStarted { error });
    assert(all.drop_last() =~= Seq::empty());
    assert(after_reports(RunModel::opened(title), all.drop_last()) == RunModel::opened(title));
}

/// Whatever came of a command, its last report tells of it, and all before tell of lines.
pub proof fn last_report_tells_the_outcome(outcome: Outcome)
    ensures
        command_reports(outcome).len() > 0,
        command_reports(outcome).last() == match outcome {
            Outcome::Ended { reads: _, status } => RunUpdateView::Exited(exit_code(status)),
            Outcome::NotStarted { error } => RunUpdateView::SpawnFailed(error),
        },
        forall|i: int|
            0 <= i < command_reports(outcome).len() - 1 ==> #[trigger] command_reports(
                outcome,
            )[i] is Line,
{
    if let Outcome::Ended { reads, status } = outcome {
        every_line_is_reported_once(reads, status);
    }
}

/// Once a command has ended its window holds every line of both streams, each stream in its
/// order, and the exit code.
pub proof fn whole_output_is_shown(
    title: Text,
    reads: Seq<Read>,
    status: Result<Option<i32>, String>,
)
    ensures
        interleaves(
            after_reports(RunModel::opened(title), reports(reads, status)).lines,
            lines_from(reads, Stream::Stdout),
            lines_from(reads, Stream::Stderr),
        ),
        after_reports(RunModel::opened(title), reports(reads, status)).status
            == RunStatusView::Exited(exit_code(status)),
{
    let all = reports(reads, status);
    every_line_is_reported_once(reads, status);
    output_is_kept_in_order(RunModel::opened(title), all);
    assert(RunModel::opened(title).lines + reported_lines(all) =~= reported_lines(all));
}

/// Scrolling by hand leaves the tail, and `G` goes back to it: the next drawing is at the
/// tail whatever the scrolling was.
pub proof fn tail_key_goes_back_to_tail(output: RunModel, key: KeyEvent, height: u16)
    requires
        key.code == KeyCode::Char('G'),
    ensures
        output.after_key(key) is Some,
        (output.after_key(key)->0).settled(height).scroll == output.tail_scroll(height),
{
    assert((output.after_key(key)->0).text_lines() == output.text_lines());
}

/// What two listings tell of, one after the other: the rules of the second follow those of
/// the first in every package.
pub proof fn listings_add_up(a: Seq<Text>, b: Seq<Text>, path: Path)
    ensures
        records(a + b) == records(a) + records(b),
        rules_at(records(a + b), path) == rules_at(records(a), path) + rules_at(records(b), path),
    decreases b.len(),
{
    if b.len() == 0 {
        assert(a + b =~= a);
        assert(records(a) + records(b) =~= records(a));
        assert(rules_at(records(a), path) + rules_at(records(b), path) =~= rules_at(
            records(a),
            path,
        ));
    } else {
        listings_add_up(a, b.drop_last(), path);
        assert((a + b).drop_last() =~= a + b.drop_last());
        assert((a + b).last() == b.last());
        match line_record(b.last()) {
            Some(record) => {
                let before = records(b.drop_last());
                assert(records(b) =~= before.push(record));
                assert(records(a) + records(b) =~= (records(a) + before).push(record));
                assert(records(a + b) =~= records(a) + records(b));
                assert(records(a + b).drop_last() =~= records(a) + before);
                assert(records(b).drop_last() =~= before);
                assert(rules_at(records(a + b), path) =~= rules_at(records(a), path) + rules_at(
                    records(b),
                    path,
                ));
            },
            None => {},
        }
    }
}

proof fn lemma_sorted_with(list: Seq<Text>, item: Text) -> (r: Seq<Text>)
    requires
        is_sorted(list),
    ensures
        is_sorted(r),
        forall|x: Text| #[trigger] r.contains(x) <==> list.contains(x) || x == item,
    decreases list.len(),
{
    if list.len() == 0 {
        let r = seq![item];
        assert(r[0] == item);
        r
    } else {
        let init = list.drop_last();
        let last = list.last();
        text_less_total(item, last);
        if item == last {
            assert(list.contains(last));
            list
        } else if text_less(last, item) {
            let r = list.push(item);
            assert forall|i: int, j: int| 0 <= i < j < r.len() implies text_less(
                #[trigger] r[i],
                #[trigger] r[j],
            ) by {
                if j == list.len() && i < list.len() - 1 {
                    assert(text_less(list[i], list[list.len() - 1]));
                    text_less_transitive(list[i], last, item);
                }
            }
            assert forall|x: Text| #[trigger] r.contains(x) <==> list.contains(x) || x == item by {
                if list.contains(x) {
                    let k = choose|k: int| 0 <= k < list.len() && list[k] == x;
                    assert(r[k] == x);
                }
                assert(r[list.len() as int] == item);
            }
            r
        } else {
            let before = lemma_sorted_with(init, item);
            let r = before.push(last);
            assert forall|i: int| 0 <= i < before.len() implies text_less(
                #[trigger] before[i],
                last,
            ) by {
                assert(before.contains(before[i]));
                if before[i] != item {
                    let k = choose|k: int| 0 <= k < init.len() && init[k] == before[i];
                    assert(text_less(list[k], list[list.len() - 1]));
                }
            }
            assert forall|x: Text| #[trigger] r.contains(x) <==> list.contains(x) || x == item by {
                assert(before.contains(x) <==> init.contains(x) || x == item);
                if before.contains(x) {
                    let k = choose|k: int| 0 <= k < before.len() && before[k] == x;
                    assert(r[k] == x);
                }
                assert(r[before.len() as int] == last);
                assert(list[list.len() - 1] == last);
                if init.contains(x) {
                    let k = choose|k: int| 0 <= k < init.len() && init[k] == x;
                    assert(list[k] == x);
                }
                if list.contains(x) && x != last {
                    let k = choose|k: int| 0 <= k < list.len() && list[k] == x;
                    assert(init[k] == x);
                }
                if r.contains(x) && x != last {
                    let k = choose|k: int| 0 <= k < r.len() && r[k] == x;
                    assert(before[k] == x);
                }
            }
            r
        }
    }
}

proof fn lemma_listing(all: Seq<(Path, RuleView)>, path: Path) -> (r: Seq<Text>)
    ensures
        is_listing(r, recorded_packages(all), path),
    decreases all.len(),
{
    let packages = recorded_packages(all);
    if all.len() == 0 {
        let r = Seq::<Text>::empty();
        assert forall|label: Text| !is_node(packages, #[trigger] path.push(label)) by {
            assert(path.push(label).len() > 0);
        }
        r
    } else {
        let rest = all.drop_last();
        let fewer = recorded_packages(rest);
        let key = all.last().0;
        assert forall|p: Path| #[trigger] packages.dom().contains(p) <==> fewer.dom().contains(p)
            || p == key by {
            assert(all[all.len() - 1].0 == key);
            if recorded(rest, p) {
                let i = choose|i: int| 0 <= i < rest.len() && (#[trigger] rest[i]).0 == p;
                assert(all[i].0 == p);
            }
            if recorded(all, p) && p != key {
                let i = choose|i: int| 0 <= i < all.len() && (#[trigger] all[i]).0 == p;
                assert(rest[i].0 == p);
            }
        }
        let before = lemma_listing(rest, path);
        let extends = path.is_prefix_of(key) && key.len() > path.len();
        let r = if extends {
            lemma_sorted_with(before, key[path.len() as int])
        } else {
            before
        };
        assert forall|label: Text| #[trigger] r.contains(label) <==> is_node(
            packages,
            path.push(label),
        ) by {
            let longer = path.push(label);
            assert(before.contains(label) <==> is_node(fewer, longer));
            assert(longer.is_prefix_of(key) <==> extends && key[path.len() as int] == label) by {
                if longer.is_prefix_of(key) {
                    assert(longer == key.take(longer.len() as int));
                    assert(path =~= longer.take(path.len() as int));
                    assert(path =~= key.take(path.len() as int));
                    assert(key[path.len() as int] == longer[path.len() as int]);
                }
                if extends && key[path.len() as int] == label {
                    assert(longer =~= key.take(longer.len() as int));
                }
            }
            if is_node(fewer, longer) {
                let k = choose|k: Path| #[trigger]
                    fewer.dom().contains(k) && longer.is_prefix_of(k);
                assert(packages.dom().contains(k));
            }
            if longer.is_prefix_of(key) {
                assert(packages.dom().contains(key));
            }
            if is_node(packages, longer) {
                let k = choose|k: Path| #[trigger]
                    packages.dom().contains(k) && longer.is_prefix_of(k);
                if k != key {
                    assert(fewer.dom().contains(k));
                }
            }
        }
        r
    }
}

/// What is below a path can be listed in every workspace that was loaded.
pub proof fn loaded_workspace_has_listings(listing: Text, path: Path)
    ensures
        is_listing(
            child_listing(listed_packages(listing), path),
            listed_packages(listing),
            path,
        ),
{
    let r = lemma_listing(records(split(listing, '\n')), path);
    listing_unique(r, listed_packages(listing), path);
}

/// The lines that tell of a rule of the package with the given path, in their order.
pub open spec fn lines_at(lines: Seq<Text>, path: Path) -> Seq<Text>
    decreases lines.len(),
{
    if lines.len() == 0 {
        Seq::empty()
    } else {
        let before = lines_at(lines.drop_last(), path);
        match line_record(lines.last()) {
            Some(record) => if record.0 == path {
                before.push(lines.last())
            } else {
                before
            },
            None => before,
        }
    }
}

proof fn lemma_lines_at(lines: Seq<Text>, path: Path)
    ensures
        recorded(records(lines), path) <==> lines_at(lines, path).len() > 0,
        rules_at(records(lines), path) == lines_at(lines, path).map_values(
            |line: Text| (line_record(line)->0).1,
        ),
    decreases lines.len(),
{
    let rule = |line: Text| (line_record(line)->0).1;
    if lines.len() == 0 {
        assert(rules_at(records(lines), path) =~= lines_at(lines, path).map_values(rule));
    } else {
        let before = lines.drop_last();
        lemma_lines_at(before, path);
        if let Some(record) = line_record(lines.last()) {
            let all = records(lines);
            let fewer = records(before);
            assert(all.drop_last() =~= fewer);
            assert(rules_at(all, path) =~= lines_at(lines, path).map_values(rule));
            if record.0 == path {
                assert(all[fewer.len() as int].0 == path);
            }
            if recorded(fewer, path) {
                let i = choose|i: int| 0 <= i < fewer.len() && (#[trigger] fewer[i]).0 == path;
                assert(all[i].0 == path);
            }
            if recorded(all, path) && record.0 != path {
                let i = choose|i: int| 0 <= i < all.len() && (#[trigger] all[i]).0 == path;
                assert(fewer[i].0 == path);
            }
        }
    }
}

/// Only the order of the lines of one package matters: listings with the same lines for every
/// package, in the same order, tell of the same packages.
pub proof fn order_between_packages_is_ignored(a: Text, b: Text)
    requires
        forall|path: Path| #[trigger]
            lines_at(split(a, '\n'), path) == lines_at(split(b, '\n'), path),
    ensures
        listed_packages(a) == listed_packages(b),
{
    let first = listed_packages(a);
    let second = listed_packages(b);
    assert forall|path: Path| #[trigger]
        first.dom().contains(path) <==> second.dom().contains(path) by {
        lemma_lines_at(split(a, '\n'), path);
        lemma_lines_at(split(b, '\n'), path);
        assert(lines_at(split(a, '\n'), path) == lines_at(split(b, '\n'), path));
    }
    assert forall|path: Path| first.dom().contains(path) implies #[trigger] first[path]
        == second[path] by {
        lemma_lines_at(split(a, '\n'), path);
        lemma_lines_at(split(b, '\n'), path);
        assert(lines_at(split(a, '\n'), path) == lines_at(split(b, '\n'), path));
        assert(second.dom().contains(path));
    }
    assert(first =~= second);
}

/// No place on the way to a package is a dead end: what is shown has sub-packages or rules.
pub proof fn place_is_no_dead_end(app: AppView, listing: Text)
    requires
        app.packages == listed_packages(listing),
        app == app.refreshed(),
        app.current().len() > 0,
        is_node(app.packages, app.current()),
    ensures
        app.children.len() > 0 || app.rules.len() > 0,
{
    let here = app.current();
    let path = choose|path: Path| #[trigger]
        app.packages.dom().contains(path) && here.is_prefix_of(path);
    listed_packages_lie_below_root(listing, path);
    if path.len() == here.len() {
        assert(path.take(here.len() as int) =~= path);
    } else {
        loaded_workspace_has_listings(listing, here);
        assert(path.take(here.len() as int) =~= here);
        way_to_package_is_listed(app.packages, path, here.len() as int, app.children);
    }
}

/// No package that is entered is a dead end: it has sub-packages or rules.
pub proof fn entered_package_is_no_dead_end(app: AppView, listing: Text, i: int)
    requires
        app.packages == listed_packages(listing),
        app == app.refreshed(),
        0 <= i < app.children.len(),
    ensures
        app.below(i).children.len() > 0 || app.below(i).rules.len() > 0,
{
    loaded_workspace_has_listings(listing, app.current());
    assert(app.is_listed());
    assert(app.children.contains(app.children[i]));
    entering_leads_to_child(app, i);
    place_is_no_dead_end(app.below(i), listing);
}

/// The first place in a workspace with packages is no dead end.
pub proof fn first_place_is_no_dead_end(app: AppView, listing: Text, path: Path)
    requires
        app.packages == listed_packages(listing),
        app == app.refreshed(),
        app.stack == seq![root_path(app.packages)],
        app.packages.dom().contains(path),
    ensures
        app.children.len() > 0 || app.rules.len() > 0,
{
    loaded_workspace_has_root(listing, path);
    listed_packages_lie_below_root(listing, path);
    assert(path.take(1) =~= app.current());
    assert(app.current().is_prefix_of(path));
    place_is_no_dead_end(app, listing);
}

/// The place that is reached by entering sub-packages, given by their indices.
pub open spec fn walk(app: AppView, choices: Seq<int>) -> AppView
    decreases choices.len(),
{
    if choices.len() == 0 {
        app
    } else {
        walk(app, choices.drop_last()).below(choices.last())
    }
}

proof fn lemma_walk(app: AppView, listing: Text, path: Path, depth: int) -> (choices: Seq<int>)
    requires
        app.packages == listed_packages(listing),
        app.stack == seq![root_path(app.packages)],
        app == app.refreshed(),
        app.packages.dom().contains(path),
        1 <= depth <= path.len(),
    ensures
        walk(app, choices).current() == path.take(depth),
        walk(app, choices).packages == app.packages,
        walk(app, choices) == walk(app, choices).refreshed(),
    decreases depth,
{
    if depth == 1 {
        loaded_workspace_has_root(listing, path);
        listed_packages_lie_below_root(listing, path);
        assert(path.take(1) =~= seq![Seq::<char>::empty()]);
        Seq::empty()
    } else {
        let before = lemma_walk(app, listing, path, depth - 1);
        let here = walk(app, before);
        loaded_workspace_has_listings(listing, here.current());
        assert(here.is_listed());
        way_to_package_is_listed(here.packages, path, depth - 1, here.children);
        let i = choose|i: int| 0 <= i < here.children.len() && here.children[i] == path[depth - 1];
        entering_leads_to_child(here, i);
        let choices = before.push(i);
        assert(choices.drop_last() =~= before);
        assert(path.take(depth) =~= path.take(depth - 1).push(path[depth - 1]));
        choices
    }
}

/// Every package that a listing tells of can be reached from the first place by entering
/// sub-packages that are listed on the way.
pub proof fn every_package_can_be_reached(app: AppView, listing: Text, path: Path)
    requires
        app.packages == listed_packages(listing),
        app.stack == seq![root_path(app.packages)],
        app == app.refreshed(),
        app.packages.dom().contains(path),
    ensures
        exists|choices: Seq<int>| (#[trigger] walk(app, choices)).current() == path,
{
    listed_packages_lie_below_root(listing, path);
    let choices = lemma_walk(app, listing, path, path.len() as int);
    assert(path.take(path.len() as int) =~= path);
}

} // verus!
